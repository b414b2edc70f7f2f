//! The security dialog of the desktop client.
use vstd::prelude::*;

use crate::backend_core::types;
use crate::text;

verus! {

/// What the dialog is about.
#[derive(Debug, Clone, Copy, PartialEq, Eq, Structural)]
pub enum SecurityDialogMode {
    /// No dialog is shown.
    Hidden,
    /// The backup status.
    Status,
    /// A backup that is being created.
    Creating,
    /// A new recovery key.
    RecoveryKey,
    /// Anything else.
    Info,
}

/// The security dialog.
#[derive(Debug, Clone)]
pub struct SecurityDialog {
    visible: bool,
    title: String,
    body: String,
    show_copy_button: bool,
    copy_button_text: String,
    show_restore_input: bool,
    restore_button_text: String,
    restore_in_flight: bool,
    mode: SecurityDialogMode,
    recovery_key: Option<String>,
}

/// What a [`SecurityDialog`] shows.
#[verifier::ext_equal]
pub struct DialogView {
    pub visible: bool,
    pub title: Seq<char>,
    pub body: Seq<char>,
    pub show_copy_button: bool,
    pub copy_button_text: Seq<char>,
    pub show_restore_input: bool,
    pub restore_button_text: Seq<char>,
    pub restore_in_flight: bool,
    pub mode: SecurityDialogMode,
    pub recovery_key: Option<Seq<char>>,
}

impl View for SecurityDialog {
    type V = DialogView;

    closed spec fn view(&self) -> DialogView {
        DialogView {
            visible: self.visible,
            title: self.title@,
            body: self.body@,
            show_copy_button: self.show_copy_button,
            copy_button_text: self.copy_button_text@,
            show_restore_input: self.show_restore_input,
            restore_button_text: self.restore_button_text@,
            restore_in_flight: self.restore_in_flight,
            mode: self.mode,
            recovery_key: types::opt_chars(self.recovery_key),
        }
    }
}

/// A dialog with a text and no controls.
pub open spec fn text_dialog(mode: SecurityDialogMode, title: Seq<char>, body: Seq<char>) -> DialogView {
    DialogView {
        visible: true,
        title,
        body,
        show_copy_button: false,
        copy_button_text: "Copy Key"@,
        show_restore_input: false,
        restore_button_text: "Restore"@,
        restore_in_flight: false,
        mode,
        recovery_key: None,
    }
}

/// The dialog that asks for a recovery key.
pub open spec fn restore_dialog(title: Seq<char>, body: Seq<char>) -> DialogView {
    DialogView { show_restore_input: true, ..text_dialog(SecurityDialogMode::Info, title, body) }
}

/// The dialog that shows a new recovery key.
pub open spec fn recovery_key_dialog(recovery_key: Seq<char>) -> DialogView {
    DialogView {
        show_copy_button: true,
        recovery_key: Some(recovery_key),
        ..text_dialog(
            SecurityDialogMode::RecoveryKey,
            "Identity Backup Created"@,
            "Store this recovery key safely. It can decrypt your encrypted history on new devices.\n\nRecovery key:\n"@
                + recovery_key,
        )
    }
}

/// The dialog behind a dismissed one: its text stays, unseen.
pub open spec fn dismissed(dialog: DialogView) -> DialogView {
    DialogView {
        visible: false,
        ..text_dialog(SecurityDialogMode::Hidden, dialog.title, dialog.body)
    }
}

/// The dialog behind a request to restore.
pub open spec fn restoring(dialog: DialogView) -> DialogView {
    if dialog.restore_in_flight {
        dialog
    } else {
        DialogView {
            restore_in_flight: true,
            restore_button_text: "Restoring..."@,
            ..dialog
        }
    }
}

/// The dialog behind a copied recovery key.
pub open spec fn copied(dialog: DialogView) -> DialogView {
    if dialog.recovery_key is Some && dialog.show_copy_button {
        DialogView { copy_button_text: "Copied"@, ..dialog }
    } else {
        dialog
    }
}

impl SecurityDialog {
    /// No dialog.
    pub fn new() -> (dialog: Self)
        ensures
            dialog@ == dismissed(
                text_dialog(SecurityDialogMode::Hidden, Seq::empty(), Seq::empty()),
            ),
    {
        let dialog = SecurityDialog {
            visible: false,
            title: String::new(),
            body: String::new(),
            show_copy_button: false,
            copy_button_text: "Copy Key".to_owned(),
            show_restore_input: false,
            restore_button_text: "Restore".to_owned(),
            restore_in_flight: false,
            mode: SecurityDialogMode::Hidden,
            recovery_key: None,
        };
        dialog
    }

    /// Shows a text without controls.
    pub fn show(&mut self, mode: SecurityDialogMode, title: &str, body: &str)
        ensures
            final(self)@ == text_dialog(mode, title@, body@),
    {
        *self = SecurityDialog {
            visible: true,
            title: title.to_owned(),
            body: body.to_owned(),
            show_copy_button: false,
            copy_button_text: "Copy Key".to_owned(),
            show_restore_input: false,
            restore_button_text: "Restore".to_owned(),
            restore_in_flight: false,
            mode,
            recovery_key: None,
        };
    }

    /// Asks for a recovery key.
    pub fn show_restore_prompt(&mut self, title: &str, body: &str)
        ensures
            final(self)@ == restore_dialog(title@, body@),
    {
        self.show(SecurityDialogMode::Info, title, body);
        self.show_restore_input = true;
    }

    /// Shows a new recovery key.
    pub fn show_recovery_key(&mut self, recovery_key: String)
        ensures
            final(self)@ == recovery_key_dialog(recovery_key@),
    {
        let mut body: String =
            "Store this recovery key safely. It can decrypt your encrypted history on new devices.\n\nRecovery key:\n".to_owned();
        body.append(recovery_key.as_str());
        self.show(SecurityDialogMode::RecoveryKey, "Identity Backup Created", body.as_str());
        self.show_copy_button = true;
        self.recovery_key = Some(recovery_key);
    }

    /// Marks a request to restore as running; `false` where one runs already.
    pub fn begin_restore(&mut self) -> (begun: bool)
        ensures
            begun == !old(self)@.restore_in_flight,
            final(self)@ == restoring(old(self)@),
    {
        if self.restore_in_flight {
            return false;
        }
        self.restore_in_flight = true;
        self.restore_button_text = "Restoring...".to_owned();
        true
    }

    /// Hides the dialog.
    pub fn dismiss(&mut self)
        ensures
            final(self)@ == dismissed(old(self)@),
    {
        self.visible = false;
        self.mode = SecurityDialogMode::Hidden;
        self.show_copy_button = false;
        self.copy_button_text = "Copy Key".to_owned();
        self.recovery_key = None;
        self.show_restore_input = false;
        self.restore_button_text = "Restore".to_owned();
        self.restore_in_flight = false;
    }

    /// Marks the recovery key as copied.
    pub fn mark_copied(&mut self)
        ensures
            final(self)@ == copied(old(self)@),
    {
        if self.recovery_key.is_some() && self.show_copy_button {
            self.copy_button_text = "Copied".to_owned();
        }
    }

    /// The recovery key that is shown.
    pub fn recovery_key(&self) -> (recovery_key: Option<String>)
        ensures
            types::opt_chars(recovery_key) == self@.recovery_key,
    {
        types::clone_opt_string(&self.recovery_key)
    }

    /// Whether a dialog is shown.
    pub fn visible(&self) -> (visible: bool)
        ensures
            visible == self@.visible,
    {
        self.visible
    }

    /// Title.
    pub fn title(&self) -> (title: String)
        ensures
            title@ == self@.title,
    {
        self.title.clone()
    }

    /// Text.
    pub fn body(&self) -> (body: String)
        ensures
            body@ == self@.body,
    {
        self.body.clone()
    }

    /// Whether the copy button is shown.
    pub fn show_copy_button(&self) -> (shown: bool)
        ensures
            shown == self@.show_copy_button,
    {
        self.show_copy_button
    }

    /// Label of the copy button.
    pub fn copy_button_text(&self) -> (label: String)
        ensures
            label@ == self@.copy_button_text,
    {
        self.copy_button_text.clone()
    }

    /// Whether the input for a recovery key is shown.
    pub fn show_restore_input(&self) -> (shown: bool)
        ensures
            shown == self@.show_restore_input,
    {
        self.show_restore_input
    }

    /// Label of the restore button.
    pub fn restore_button_text(&self) -> (label: String)
        ensures
            label@ == self@.restore_button_text,
    {
        self.restore_button_text.clone()
    }

    /// Whether a request to restore is running.
    pub fn restore_in_flight(&self) -> (running: bool)
        ensures
            running == self@.restore_in_flight,
    {
        self.restore_in_flight
    }

    /// What the dialog is about.
    pub fn mode(&self) -> (mode: SecurityDialogMode)
        ensures
            mode == self@.mode,
    {
        self.mode
    }
}

/// A recovery key stands in a visible dialog that names it, titled for it and with a button to
/// copy it, never together with an input for one; a dialog without one has no such button; and
/// the button to restore says whether a request is running.
pub open spec fn is_tidy(dialog: DialogView) -> bool {
    &&& dialog.recovery_key matches Some(recovery_key) ==> {
        &&& dialog.visible
        &&& dialog.mode is RecoveryKey
        &&& dialog.title == "Identity Backup Created"@
        &&& text::contains(dialog.body, recovery_key)
        &&& dialog.show_copy_button
        &&& !dialog.show_restore_input
    }
    &&& dialog.recovery_key is None ==> !dialog.show_copy_button
    &&& dialog.visible <==> !(dialog.mode is Hidden)
    &&& dialog.restore_button_text == if dialog.restore_in_flight {
        "Restoring..."@
    } else {
        "Restore"@
    }
}

/// Every dialog is tidy, whatever was shown before.
pub proof fn lemma_dialogs_are_tidy(
    dialog: DialogView,
    mode: SecurityDialogMode,
    title: Seq<char>,
    body: Seq<char>,
)
    requires
        is_tidy(dialog),
        !(mode is Hidden),
    ensures
        is_tidy(text_dialog(mode, title, body)),
        is_tidy(restore_dialog(title, body)),
        is_tidy(recovery_key_dialog(body)),
        is_tidy(dismissed(dialog)),
        is_tidy(restoring(dialog)),
        is_tidy(copied(dialog)),
{
    let shown = recovery_key_dialog(body).body;
    let at = shown.len() - body.len();
    assert(shown.subrange(at, at + body.len()) =~= body);
    assert(text::occurs_at(shown, body, at));
}

} // verus!
