//! Why a request is refused, and what its caller is told.

use vstd::prelude::*;
use vstd::string::*;

use crate::focus::FOCUS_TIMEOUT_MS;
use crate::text::{decimal, decimal_signed, decimal_signed_text, decimal_text};

verus! {

/// Why a request on the session is refused.
#[derive(Debug, PartialEq, Eq)]
pub enum HyprError {
    /// No window was ever given this id.
    UnknownWindow { window_id: u64 },
    /// The window that was given this id does not live any more.
    StaleWindow { window_id: u64 },
    /// The window does not show on an active workspace.
    NotVisible,
    /// The point lies outside the capture of its window.
    CapturePointOutside { x: i32, y: i32, width: u32, height: u32 },
    /// The point, which reads like this, lies on no enabled monitor.
    OutsideEveryOutput { point: String },
    /// No monitor is enabled.
    NoEnabledMonitors,
    /// The window to focus is not the one that it was.
    TargetChangedIdentity,
    /// Another window has taken the focus.
    ActiveFocusChanged,
    /// The address stands for another window, or for none.
    StaleAddress { address: String },
    /// Neither form of the focus request was accepted.
    DispatchFailed { lua: String, legacy: String },
    /// The address came to stand for another window while it was focused.
    AddressReused { address: String },
    /// The window did not get the focus in time.
    FocusTimedOut { address: String },
    /// The window belongs to another process.
    WrongOwner { window_id: u64, pid: u32 },
    /// `hyprctl` failed.
    HyprctlFailed { args: String, detail: String },
    /// The answer of `hyprctl` could not be read.
    InvalidResponse { args: String, detail: String },
    /// `grim` failed.
    GrimFailed { args: String, detail: String },
    /// `grim` gave no image.
    GrimEmpty { args: String },
}

impl HyprError {
    /// What the caller is told.
    pub open spec fn text(self) -> Seq<char> {
        match self {
            HyprError::UnknownWindow { window_id } => "unknown Hyprland window_id "@ + decimal(
                window_id as nat,
            ) + "; call list_windows to refresh it"@,
            HyprError::StaleWindow { window_id } => "stale Hyprland window_id "@ + decimal(
                window_id as nat,
            ) + "; its original window no longer exists"@,
            HyprError::NotVisible =>
                "Hyprland window is not visible on an active workspace; refusing a stale/off-workspace target"@,
            HyprError::CapturePointOutside { x, y, width, height } => "window capture point ("@
                + decimal_signed(x as int) + ", "@ + decimal_signed(y as int)
                + ") is outside the target screenshot's exclusive bounds 0.."@ + decimal(
                width as nat,
            ) + " x 0.."@ + decimal(height as nat),
            HyprError::OutsideEveryOutput { point } => "screen point "@ + point@
                + " is outside every enabled Hyprland output"@,
            HyprError::NoEnabledMonitors => "hyprctl monitors returned no enabled monitors"@,
            HyprError::TargetChangedIdentity =>
                "Hyprland target window changed identity before it could be focused"@,
            HyprError::ActiveFocusChanged =>
                "Hyprland active focus changed before pointer dispatch; refusing input to a different surface"@,
            HyprError::StaleAddress { address } =>
                "refusing to focus stale or reused Hyprland address "@ + address@,
            HyprError::DispatchFailed { lua, legacy } => "Hyprland focus dispatch failed (Lua: "@
                + lua@ + "; legacy: "@ + legacy@ + ")"@,
            HyprError::AddressReused { address } => "Hyprland address "@ + address@
                + " was reused by a different window while focusing"@,
            HyprError::FocusTimedOut { address } => "Hyprland did not focus window "@ + address@
                + " within "@ + decimal(FOCUS_TIMEOUT_MS as nat) + "ms"@,
            HyprError::WrongOwner { window_id, pid } => "Hyprland window "@ + decimal(
                window_id as nat,
            ) + " is not owned by pid "@ + decimal(pid as nat),
            HyprError::HyprctlFailed { args, detail } => "hyprctl -j "@ + args@ + " failed: "@
                + detail@,
            HyprError::InvalidResponse { args, detail } => "invalid hyprctl -j "@ + args@
                + " response: "@ + detail@,
            HyprError::GrimFailed { args, detail } => "grim "@ + args@ + " failed: "@ + detail@,
            HyprError::GrimEmpty { args } => "grim "@ + args@ + " produced no output"@,
        }
    }

    /// What the caller is told.
    pub fn message(&self) -> (r: String)
        ensures
            r@ == self.text(),
    {
        match self {
            HyprError::UnknownWindow { window_id } => "unknown Hyprland window_id ".to_owned().concat(
                decimal_text(*window_id).as_str(),
            ).concat("; call list_windows to refresh it"),
            HyprError::StaleWindow { window_id } => "stale Hyprland window_id ".to_owned().concat(
                decimal_text(*window_id).as_str(),
            ).concat("; its original window no longer exists"),
            HyprError::NotVisible =>
                "Hyprland window is not visible on an active workspace; refusing a stale/off-workspace target".to_owned(),
            HyprError::CapturePointOutside { x, y, width, height } =>
                "window capture point (".to_owned().concat(
                decimal_signed_text(*x).as_str(),
            ).concat(", ").concat(decimal_signed_text(*y).as_str()).concat(
                ") is outside the target screenshot's exclusive bounds 0..",
            ).concat(decimal_text(*width as u64).as_str()).concat(" x 0..").concat(
                decimal_text(*height as u64).as_str(),
            ),
            HyprError::OutsideEveryOutput { point } => "screen point ".to_owned().concat(
                point.as_str(),
            ).concat(" is outside every enabled Hyprland output"),
            HyprError::NoEnabledMonitors =>
                "hyprctl monitors returned no enabled monitors".to_owned(),
            HyprError::TargetChangedIdentity =>
                "Hyprland target window changed identity before it could be focused".to_owned(),
            HyprError::ActiveFocusChanged =>
                "Hyprland active focus changed before pointer dispatch; refusing input to a different surface".to_owned(),
            HyprError::StaleAddress { address } =>
                "refusing to focus stale or reused Hyprland address ".to_owned().concat(
                address.as_str(),
            ),
            HyprError::DispatchFailed { lua, legacy } =>
                "Hyprland focus dispatch failed (Lua: ".to_owned().concat(lua.as_str()).concat(
                "; legacy: ",
            ).concat(legacy.as_str()).concat(")"),
            HyprError::AddressReused { address } => "Hyprland address ".to_owned().concat(
                address.as_str(),
            ).concat(" was reused by a different window while focusing"),
            HyprError::FocusTimedOut { address } => "Hyprland did not focus window ".to_owned().concat(
                address.as_str(),
            ).concat(" within ").concat(decimal_text(FOCUS_TIMEOUT_MS).as_str()).concat("ms"),
            HyprError::WrongOwner { window_id, pid } => "Hyprland window ".to_owned().concat(
                decimal_text(*window_id).as_str(),
            ).concat(" is not owned by pid ").concat(decimal_text(*pid as u64).as_str()),
            HyprError::HyprctlFailed { args, detail } => "hyprctl -j ".to_owned().concat(
                args.as_str(),
            ).concat(" failed: ").concat(detail.as_str()),
            HyprError::InvalidResponse { args, detail } => "invalid hyprctl -j ".to_owned().concat(
                args.as_str(),
            ).concat(" response: ").concat(detail.as_str()),
            HyprError::GrimFailed { args, detail } => "grim ".to_owned().concat(
                args.as_str(),
            ).concat(" failed: ").concat(detail.as_str()),
            HyprError::GrimEmpty { args } => "grim ".to_owned().concat(args.as_str()).concat(
                " produced no output",
            ),
        }
    }
}

/// A failure with what led to it: messages, the outermost first.
#[derive(Debug, PartialEq, Eq)]
pub struct Failure {
    pub messages: Vec<String>,
}

impl View for Failure {
    type V = Seq<Seq<char>>;

    open spec fn view(&self) -> Seq<Seq<char>> {
        self.messages@.map_values(|message: String| message@)
    }
}

/// The outermost message of a failure.
pub open spec fn outermost(messages: Seq<Seq<char>>) -> Seq<char> {
    if messages.len() == 0 {
        Seq::empty()
    } else {
        messages[0]
    }
}

impl Failure {
    /// A failure that nothing led to.
    pub fn new(message: String) -> (r: Failure)
        ensures
            r@ == seq![message@],
    {
        let mut messages: Vec<String> = Vec::new();
        messages.push(message);
        let r = Failure { messages };
        assert(r@ =~= seq![message@]);
        r
    }

    /// This failure, as what led to another one.
    pub fn context(self, message: String) -> (r: Failure)
        ensures
            r@ == seq![message@] + self@,
    {
        let ghost before = self@;
        let mut messages = self.messages;
        messages.insert(0, message);
        let r = Failure { messages };
        assert(r@ =~= seq![message@] + before);
        r
    }

    /// What the caller is told: the outermost message.
    pub fn message(&self) -> (r: String)
        ensures
            r@ == outermost(self@),
    {
        if self.messages.len() == 0 {
            String::new()
        } else {
            self.messages[0].clone()
        }
    }
}

} // verus!
