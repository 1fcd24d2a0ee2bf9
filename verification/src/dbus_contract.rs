//! Well-known names and object paths of the portal and notification D-Bus
//! interfaces, and the fixed calls made on them.

use vstd::prelude::*;

verus! {

pub const PORTAL_BUS_NAME: &'static str = "org.freedesktop.portal.Desktop";

pub const PORTAL_OBJECT_PATH: &'static str = "/org/freedesktop/portal/desktop";

pub const PORTAL_DESKTOP_INTERFACE: &'static str = "org.freedesktop.portal.Desktop";

pub const PORTAL_PROPERTIES_INTERFACE: &'static str = "org.freedesktop.DBus.Properties";

pub const PORTAL_CLIPBOARD_INTERFACE: &'static str = "org.freedesktop.portal.Clipboard";

pub const PORTAL_SCREENCAST_INTERFACE: &'static str = "org.freedesktop.portal.ScreenCast";

pub const PORTAL_REMOTE_DESKTOP_INTERFACE: &'static str = "org.freedesktop.portal.RemoteDesktop";

pub const PORTAL_REQUEST_INTERFACE: &'static str = "org.freedesktop.portal.Request";

pub const PORTAL_SESSION_INTERFACE: &'static str = "org.freedesktop.portal.Session";

pub const NOTIFICATIONS_BUS_NAME: &'static str = "org.freedesktop.Notifications";

pub const NOTIFICATIONS_OBJECT_PATH: &'static str = "/org/freedesktop/Notifications";

pub const NOTIFICATIONS_INTERFACE: &'static str = "org.freedesktop.Notifications";

/// A fixed D-Bus call identifier. Session object paths and payloads are
/// supplied only by a real D-Bus connection after user consent.
#[derive(Clone, Copy, Debug, Eq, PartialEq)]
pub struct DbusCallContract {
    pub bus_name: &'static str,
    pub object_path: &'static str,
    pub interface: &'static str,
    pub member: &'static str,
    pub requires_session_handle: bool,
}

#[derive(Clone, Copy, Debug, Eq, PartialEq, Structural)]
pub enum DbusOperation {
    PortalDesktopVersion,
    PortalClipboardVersion,
    PortalScreenCastVersion,
    PortalClipboardRequest,
    PortalClipboardSetSelection,
    PortalClipboardSelectionRead,
    PortalClipboardSelectionWrite,
    PortalClipboardSelectionWriteDone,
    PortalScreenCastCreateSession,
    PortalScreenCastSelectSources,
    PortalScreenCastStart,
    PortalScreenCastOpenPipeWireRemote,
    PortalRemoteDesktopCreateSession,
    PortalRemoteDesktopStart,
    PortalRemoteDesktopStop,
    PortalSessionClose,
    NotificationsGetServerInformation,
    NotificationsNotify,
    NotificationsClose,
}

impl DbusOperation {
    /// Whether the call goes to the notification service, not to the portal.
    pub open spec fn to_notifications(self) -> bool {
        match self {
            DbusOperation::NotificationsGetServerInformation
            | DbusOperation::NotificationsNotify
            | DbusOperation::NotificationsClose => true,
            _ => false,
        }
    }

    pub open spec fn spec_interface(self) -> Seq<char> {
        match self {
            DbusOperation::PortalDesktopVersion
            | DbusOperation::PortalClipboardVersion
            | DbusOperation::PortalScreenCastVersion => PORTAL_PROPERTIES_INTERFACE@,
            DbusOperation::PortalClipboardRequest
            | DbusOperation::PortalClipboardSetSelection
            | DbusOperation::PortalClipboardSelectionRead
            | DbusOperation::PortalClipboardSelectionWrite
            | DbusOperation::PortalClipboardSelectionWriteDone => PORTAL_CLIPBOARD_INTERFACE@,
            DbusOperation::PortalScreenCastCreateSession
            | DbusOperation::PortalScreenCastSelectSources
            | DbusOperation::PortalScreenCastStart
            | DbusOperation::PortalScreenCastOpenPipeWireRemote => PORTAL_SCREENCAST_INTERFACE@,
            DbusOperation::PortalRemoteDesktopCreateSession
            | DbusOperation::PortalRemoteDesktopStart
            | DbusOperation::PortalRemoteDesktopStop => PORTAL_REMOTE_DESKTOP_INTERFACE@,
            DbusOperation::PortalSessionClose => PORTAL_SESSION_INTERFACE@,
            DbusOperation::NotificationsGetServerInformation
            | DbusOperation::NotificationsNotify
            | DbusOperation::NotificationsClose => NOTIFICATIONS_INTERFACE@,
        }
    }

    pub open spec fn spec_member(self) -> Seq<char> {
        match self {
            DbusOperation::PortalDesktopVersion
            | DbusOperation::PortalClipboardVersion
            | DbusOperation::PortalScreenCastVersion => "Get"@,
            DbusOperation::PortalClipboardRequest => "RequestClipboard"@,
            DbusOperation::PortalClipboardSetSelection => "SetSelection"@,
            DbusOperation::PortalClipboardSelectionRead => "SelectionRead"@,
            DbusOperation::PortalClipboardSelectionWrite => "SelectionWrite"@,
            DbusOperation::PortalClipboardSelectionWriteDone => "SelectionWriteDone"@,
            DbusOperation::PortalScreenCastCreateSession
            | DbusOperation::PortalRemoteDesktopCreateSession => "CreateSession"@,
            DbusOperation::PortalScreenCastSelectSources => "SelectSources"@,
            DbusOperation::PortalScreenCastStart
            | DbusOperation::PortalRemoteDesktopStart => "Start"@,
            DbusOperation::PortalScreenCastOpenPipeWireRemote => "OpenPipeWireRemote"@,
            DbusOperation::PortalRemoteDesktopStop => "Stop"@,
            DbusOperation::PortalSessionClose => "Close"@,
            DbusOperation::NotificationsGetServerInformation => "GetServerInformation"@,
            DbusOperation::NotificationsNotify => "Notify"@,
            DbusOperation::NotificationsClose => "CloseNotification"@,
        }
    }

    /// Whether the call is made on a session that a user has consented to.
    pub open spec fn in_session(self) -> bool {
        match self {
            DbusOperation::PortalDesktopVersion
            | DbusOperation::PortalClipboardVersion
            | DbusOperation::PortalScreenCastVersion
            | DbusOperation::PortalScreenCastCreateSession
            | DbusOperation::PortalRemoteDesktopCreateSession
            | DbusOperation::NotificationsGetServerInformation
            | DbusOperation::NotificationsNotify
            | DbusOperation::NotificationsClose => false,
            _ => true,
        }
    }

    /// The call that carries out the operation.
    pub fn contract(self) -> (call: DbusCallContract)
        ensures
            call.bus_name@ == (if self.to_notifications() {
                NOTIFICATIONS_BUS_NAME@
            } else {
                PORTAL_BUS_NAME@
            }),
            call.object_path@ == (if self.to_notifications() {
                NOTIFICATIONS_OBJECT_PATH@
            } else {
                PORTAL_OBJECT_PATH@
            }),
            call.interface@ == self.spec_interface(),
            call.member@ == self.spec_member(),
            call.requires_session_handle == self.in_session(),
    {
        match self {
            DbusOperation::PortalDesktopVersion
            | DbusOperation::PortalClipboardVersion
            | DbusOperation::PortalScreenCastVersion => portal_call(
                PORTAL_PROPERTIES_INTERFACE,
                "Get",
                false,
            ),
            DbusOperation::PortalClipboardRequest => portal_call(
                PORTAL_CLIPBOARD_INTERFACE,
                "RequestClipboard",
                true,
            ),
            DbusOperation::PortalClipboardSetSelection => portal_call(
                PORTAL_CLIPBOARD_INTERFACE,
                "SetSelection",
                true,
            ),
            DbusOperation::PortalClipboardSelectionRead => portal_call(
                PORTAL_CLIPBOARD_INTERFACE,
                "SelectionRead",
                true,
            ),
            DbusOperation::PortalClipboardSelectionWrite => portal_call(
                PORTAL_CLIPBOARD_INTERFACE,
                "SelectionWrite",
                true,
            ),
            DbusOperation::PortalClipboardSelectionWriteDone => portal_call(
                PORTAL_CLIPBOARD_INTERFACE,
                "SelectionWriteDone",
                true,
            ),
            DbusOperation::PortalScreenCastCreateSession => portal_call(
                PORTAL_SCREENCAST_INTERFACE,
                "CreateSession",
                false,
            ),
            DbusOperation::PortalScreenCastSelectSources => portal_call(
                PORTAL_SCREENCAST_INTERFACE,
                "SelectSources",
                true,
            ),
            DbusOperation::PortalScreenCastStart => portal_call(
                PORTAL_SCREENCAST_INTERFACE,
                "Start",
                true,
            ),
            DbusOperation::PortalScreenCastOpenPipeWireRemote => portal_call(
                PORTAL_SCREENCAST_INTERFACE,
                "OpenPipeWireRemote",
                true,
            ),
            DbusOperation::PortalRemoteDesktopCreateSession => portal_call(
                PORTAL_REMOTE_DESKTOP_INTERFACE,
                "CreateSession",
                false,
            ),
            DbusOperation::PortalRemoteDesktopStart => portal_call(
                PORTAL_REMOTE_DESKTOP_INTERFACE,
                "Start",
                true,
            ),
            DbusOperation::PortalRemoteDesktopStop => portal_call(
                PORTAL_REMOTE_DESKTOP_INTERFACE,
                "Stop",
                true,
            ),
            DbusOperation::PortalSessionClose => portal_call(
                PORTAL_SESSION_INTERFACE,
                "Close",
                true,
            ),
            DbusOperation::NotificationsGetServerInformation => notification_call(
                "GetServerInformation",
            ),
            DbusOperation::NotificationsNotify => notification_call("Notify"),
            DbusOperation::NotificationsClose => notification_call("CloseNotification"),
        }
    }
}

fn portal_call(interface: &'static str, member: &'static str, requires_session_handle: bool) -> (call:
    DbusCallContract)
    ensures
        call.bus_name@ == PORTAL_BUS_NAME@,
        call.object_path@ == PORTAL_OBJECT_PATH@,
        call.interface@ == interface@,
        call.member@ == member@,
        call.requires_session_handle == requires_session_handle,
{
    DbusCallContract {
        bus_name: PORTAL_BUS_NAME,
        object_path: PORTAL_OBJECT_PATH,
        interface,
        member,
        requires_session_handle,
    }
}

fn notification_call(member: &'static str) -> (call: DbusCallContract)
    ensures
        call.bus_name@ == NOTIFICATIONS_BUS_NAME@,
        call.object_path@ == NOTIFICATIONS_OBJECT_PATH@,
        call.interface@ == NOTIFICATIONS_INTERFACE@,
        call.member@ == member@,
        !call.requires_session_handle,
{
    DbusCallContract {
        bus_name: NOTIFICATIONS_BUS_NAME,
        object_path: NOTIFICATIONS_OBJECT_PATH,
        interface: NOTIFICATIONS_INTERFACE,
        member,
        requires_session_handle: false,
    }
}

// ---- laws ------------------------------------------------------------------------------

/// Which calls need a session: every portal call but the questions for a version
/// and the ones that create a session; a notification needs none.
pub proof fn sessions_are_created_before_they_are_used(operation: DbusOperation)
    ensures
        operation.to_notifications() ==> !operation.in_session(),
        operation.in_session() <==> {
            ||| operation is PortalClipboardRequest || operation is PortalClipboardSetSelection
            ||| operation is PortalClipboardSelectionRead
                || operation is PortalClipboardSelectionWrite
            ||| operation is PortalClipboardSelectionWriteDone
                || operation is PortalScreenCastSelectSources
            ||| operation is PortalScreenCastStart
                || operation is PortalScreenCastOpenPipeWireRemote
            ||| operation is PortalRemoteDesktopStart || operation is PortalRemoteDesktopStop
            ||| operation is PortalSessionClose
        },
{
}

/// The interface of each call: the notifications have their own, versions are
/// properties, and the others belong to the portal that they are named after.
pub proof fn calls_go_to_their_interface(operation: DbusOperation)
    ensures
        operation.to_notifications() <==> operation is NotificationsGetServerInformation
            || operation is NotificationsNotify || operation is NotificationsClose,
        operation.to_notifications() ==> operation.spec_interface()
            == "org.freedesktop.Notifications"@,
        operation is PortalDesktopVersion || operation is PortalClipboardVersion
            || operation is PortalScreenCastVersion ==> operation.spec_interface()
            == "org.freedesktop.DBus.Properties"@ && operation.spec_member() == "Get"@,
        operation is PortalClipboardRequest || operation is PortalClipboardSetSelection
            || operation is PortalClipboardSelectionRead
            || operation is PortalClipboardSelectionWrite
            || operation is PortalClipboardSelectionWriteDone ==> operation.spec_interface()
            == "org.freedesktop.portal.Clipboard"@,
        operation is PortalScreenCastCreateSession || operation is PortalScreenCastSelectSources
            || operation is PortalScreenCastStart || operation is PortalScreenCastOpenPipeWireRemote
            ==> operation.spec_interface() == "org.freedesktop.portal.ScreenCast"@,
        operation is PortalRemoteDesktopCreateSession || operation is PortalRemoteDesktopStart
            || operation is PortalRemoteDesktopStop ==> operation.spec_interface()
            == "org.freedesktop.portal.RemoteDesktop"@,
        operation is PortalSessionClose ==> operation.spec_interface()
            == "org.freedesktop.portal.Session"@,
{
}

/// The member of each call.
pub proof fn calls_have_these_members()
    ensures
        DbusOperation::PortalClipboardRequest.spec_member() == "RequestClipboard"@,
        DbusOperation::PortalClipboardSetSelection.spec_member() == "SetSelection"@,
        DbusOperation::PortalClipboardSelectionRead.spec_member() == "SelectionRead"@,
        DbusOperation::PortalClipboardSelectionWrite.spec_member() == "SelectionWrite"@,
        DbusOperation::PortalClipboardSelectionWriteDone.spec_member() == "SelectionWriteDone"@,
        DbusOperation::PortalScreenCastCreateSession.spec_member() == "CreateSession"@,
        DbusOperation::PortalScreenCastSelectSources.spec_member() == "SelectSources"@,
        DbusOperation::PortalScreenCastStart.spec_member() == "Start"@,
        DbusOperation::PortalScreenCastOpenPipeWireRemote.spec_member() == "OpenPipeWireRemote"@,
        DbusOperation::PortalRemoteDesktopCreateSession.spec_member() == "CreateSession"@,
        DbusOperation::PortalRemoteDesktopStart.spec_member() == "Start"@,
        DbusOperation::PortalRemoteDesktopStop.spec_member() == "Stop"@,
        DbusOperation::PortalSessionClose.spec_member() == "Close"@,
        DbusOperation::NotificationsGetServerInformation.spec_member() == "GetServerInformation"@,
        DbusOperation::NotificationsNotify.spec_member() == "Notify"@,
        DbusOperation::NotificationsClose.spec_member() == "CloseNotification"@,
{
}

} // verus!
