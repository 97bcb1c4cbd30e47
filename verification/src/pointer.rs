//! The vocabulary of pointer input: what a mouse reports, and what a
//! virtual pointer on a UI texture is told.

use bevy::math::Vec2;
use bevy::picking::pointer::PointerId;
use bevy::render::camera::NormalizedRenderTarget;
use vstd::prelude::*;

verus! {

/// `bevy_picking`'s `PointerId`, the identity of a pointer device. Opaque
/// here: it is handed on as it came.
#[verifier::external_type_specification]
#[verifier::external_body]
pub struct ExPointerId(PointerId);

/// `bevy_render`'s `NormalizedRenderTarget`, the texture or window that a
/// camera draws to. Opaque here: it is handed on as it came.
#[verifier::external_type_specification]
#[verifier::external_body]
pub struct ExNormalizedRenderTarget(NormalizedRenderTarget);

/// The derived `Clone` of `NormalizedRenderTarget`: the copy equals the
/// target it was made from.
pub assume_specification[ <NormalizedRenderTarget as Clone>::clone ](
    target: &NormalizedRenderTarget,
) -> (copy: NormalizedRenderTarget)
    ensures
        copy == *target,
;

/// A button on a mouse.
#[derive(Clone, Copy, Debug, PartialEq, Eq, Structural)]
pub enum MouseButton {
    Left,
    Right,
    Middle,
    Back,
    Forward,
    Other(u16),
}

/// What happened to a button.
#[derive(Clone, Copy, Debug, PartialEq, Eq, Structural)]
pub enum ButtonState {
    Pressed,
    Released,
}

/// A change of state of one mouse button.
#[derive(Clone, Copy, Debug, PartialEq, Eq, Structural)]
pub struct MouseButtonInput {
    pub button: MouseButton,
    pub state: ButtonState,
}

/// A button of a pointer.
#[derive(Clone, Copy, Debug, PartialEq, Eq, Structural)]
pub enum PointerButton {
    Primary,
    Secondary,
    Middle,
}

/// What a pointer is told to do.
#[derive(Clone, Copy, Debug)]
pub enum PointerAction {
    /// Press a button.
    Press(PointerButton),
    /// Release a button.
    Release(PointerButton),
    /// Move; `delta` is the new position minus the one before.
    Move { delta: Vec2 },
}

/// Where a pointer is: a render target and a pixel position on it.
#[derive(Debug)]
pub struct Location {
    pub target: NormalizedRenderTarget,
    pub position: Vec2,
}

/// One pointer event: which pointer, where it is once the event has
/// happened, and what it does.
#[derive(Debug)]
pub struct PointerInput {
    pub pointer_id: PointerId,
    pub location: Location,
    pub action: PointerAction,
}

/// The pointer button that stands for a mouse button: left is primary,
/// right is secondary, middle is middle, and no other button has one.
pub open spec fn pointer_button_of(button: MouseButton) -> Option<PointerButton> {
    match button {
        MouseButton::Left => Some(PointerButton::Primary),
        MouseButton::Right => Some(PointerButton::Secondary),
        MouseButton::Middle => Some(PointerButton::Middle),
        _ => None,
    }
}

/// The pointer action that a button change asks for: a press or a release
/// of the button's pointer button, or none where the button has no pointer
/// button.
pub open spec fn pointer_action_of(input: MouseButtonInput) -> Option<PointerAction> {
    match pointer_button_of(input.button) {
        Some(button) => Some(
            match input.state {
                ButtonState::Pressed => PointerAction::Press(button),
                ButtonState::Released => PointerAction::Release(button),
            },
        ),
        None => None,
    }
}

/// Maps a mouse button to its pointer button: see [`pointer_button_of`].
pub fn pointer_button(button: MouseButton) -> (mapped: Option<PointerButton>)
    ensures
        mapped == pointer_button_of(button),
{
    match button {
        MouseButton::Left => Some(PointerButton::Primary),
        MouseButton::Right => Some(PointerButton::Secondary),
        MouseButton::Middle => Some(PointerButton::Middle),
        _ => None,
    }
}

/// Maps a button change to its pointer action: see [`pointer_action_of`].
pub fn pointer_action(input: MouseButtonInput) -> (action: Option<PointerAction>)
    ensures
        action == pointer_action_of(input),
{
    match pointer_button(input.button) {
        Some(button) => Some(
            match input.state {
                ButtonState::Pressed => PointerAction::Press(button),
                ButtonState::Released => PointerAction::Release(button),
            },
        ),
        None => None,
    }
}

} // verus!
