//! Which part of the mail client's main pane is selected: the list of
//! received messages, one opened message, or the window for a new message.

use vstd::prelude::*;

verus! {

/// What the main pane shows.
#[derive(PartialEq, Eq, Structural, Clone, Copy, Debug)]
pub enum Screen {
    /// The message with this id, opened.
    OpenMessage(u64),
    /// The window for writing a new message.
    NewMessage,
    /// The list of received messages.
    InboxList,
}

/// The state of the menu.
pub struct MenuSelection {
    email: Option<u64>,
    new_msg: bool,
}

/// The abstract state of the menu: the opened message, if any, and whether
/// the new-message window is selected.
pub struct MenuView {
    pub email: Option<u64>,
    pub new_msg: bool,
}

impl View for MenuSelection {
    type V = MenuView;

    closed spec fn view(&self) -> MenuView {
        MenuView { email: self.email, new_msg: self.new_msg }
    }
}

impl MenuView {
    /// What the main pane shows: an opened message first, else the
    /// new-message window, else the list.
    pub open spec fn screen(self) -> Screen {
        match self.email {
            Some(id) => Screen::OpenMessage(id),
            None => if self.new_msg {
                Screen::NewMessage
            } else {
                Screen::InboxList
            },
        }
    }
}

impl MenuView {
    /// After "Write message" was selected: the window toggles, and opening it
    /// closes the opened message.
    pub open spec fn after_new_msg(self) -> MenuView {
        if self.new_msg {
            MenuView { new_msg: false, ..self }
        } else {
            MenuView { email: None, new_msg: true }
        }
    }

    /// After going back to the list.
    pub open spec fn after_inbox_list(self) -> MenuView {
        MenuView { email: None, new_msg: false }
    }

    /// After the message with id `id` was opened.
    pub open spec fn after_open_email(self, id: u64) -> MenuView {
        MenuView { email: Some(id), ..self }
    }
}

impl Default for MenuSelection {
    /// Nothing opened, the list selected.
    fn default() -> (m: Self)
        ensures
            m@ == (MenuView { email: None, new_msg: false }),
    {
        MenuSelection { email: None, new_msg: false }
    }
}

impl MenuSelection {
    /// Toggles the new-message window; opening it closes the opened message.
    pub fn at_new_msg(&mut self)
        ensures
            final(self)@ == old(self)@.after_new_msg(),
    {
        if self.new_msg {
            self.new_msg = false;
        } else {
            self.new_msg = true;
            self.email = None;
        }
    }

    /// Whether the new-message window is selected.
    pub fn is_new_msg(&self) -> (b: bool)
        ensures
            b == self@.new_msg,
    {
        self.new_msg
    }

    /// Goes back to the list of received messages.
    pub fn at_inbox_list(&mut self)
        ensures
            final(self)@ == old(self)@.after_inbox_list(),
    {
        self.email = None;
        self.new_msg = false;
    }

    /// Whether the list of received messages is selected: neither a new
    /// message nor an opened one.
    pub fn is_received(&self) -> (b: bool)
        ensures
            b == (!self@.new_msg && self@.email is None),
    {
        !self.new_msg && self.email.is_none()
    }

    /// Opens the message with id `id`.
    pub fn open_email(&mut self, id: u64)
        ensures
            final(self)@ == old(self)@.after_open_email(id),
    {
        self.email = Some(id);
    }

    /// The opened message, if any.
    pub fn email(&self) -> (e: Option<u64>)
        ensures
            e == self@.email,
    {
        self.email
    }

    /// What the main pane shows.
    pub fn screen(&self) -> (s: Screen)
        ensures
            s == self@.screen(),
    {
        match self.email {
            Some(id) => Screen::OpenMessage(id),
            None => if self.new_msg {
                Screen::NewMessage
            } else {
                Screen::InboxList
            },
        }
    }

    /// Whether the menu marks "Received" as active: when the list is shown
    /// or the new-message window is not selected.
    pub fn received_tab_active(&self) -> (b: bool)
        ensures
            b == ((!self@.new_msg && self@.email is None) || !self@.new_msg),
    {
        self.is_received() || !self.is_new_msg()
    }

    /// Whether the menu marks "Write message" as active.
    pub fn write_tab_active(&self) -> (b: bool)
        ensures
            b == self@.new_msg,
    {
        self.is_new_msg()
    }
}

/// Exactly one of the menu's two entries is marked active.
pub proof fn lemma_one_tab_active(m: MenuView)
    ensures
        ((!m.new_msg && m.email is None) || !m.new_msg) != m.new_msg,
{
}

/// Going back to the list shows the list, whatever was selected before.
pub proof fn lemma_back_to_list(m: MenuView)
    ensures
        m.after_inbox_list().screen() == Screen::InboxList,
{
}

/// Opening a message shows it, whatever was selected before.
pub proof fn lemma_open_shows_message(m: MenuView, id: u64)
    ensures
        m.after_open_email(id).screen() == Screen::OpenMessage(id),
{
}

/// Selecting "Write message" while the window is closed shows the window;
/// selecting it twice leaves the window as it was.
pub proof fn lemma_new_msg_toggles(m: MenuView)
    ensures
        !m.new_msg ==> m.after_new_msg().screen() == Screen::NewMessage,
        m.after_new_msg().new_msg != m.new_msg,
        m.after_new_msg().after_new_msg().new_msg == m.new_msg,
{
}

} // verus!
