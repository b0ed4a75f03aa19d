use freenet::inbox::{AppScreen, Identity, Inbox, User};
use freenet::menu::{MenuSelection, Screen};
use freenet::message::Message;
use rsa::pkcs1::{EncodeRsaPrivateKey, LineEnding};
use std::cmp::Ordering;

fn message(id: u64, from: &str) -> Message {
    Message {
        id,
        from: from.to_string(),
        title: format!("title {id}"),
        content: String::new(),
        read: false,
    }
}

fn test_key_pem() -> String {
    let key = rsa::RsaPrivateKey::new(&mut rand::thread_rng(), 512).unwrap();
    key.to_pkcs1_pem(LineEnding::LF).unwrap().to_string()
}

fn identity(id: usize, alias: &str) -> Identity {
    let pem = test_key_pem();
    let mut ids = freenet::inbox::demo_contracts(&pem, &pem).unwrap();
    let mut identity = ids.remove(0);
    identity.id = id;
    identity.alias = alias.to_string();
    identity
}

#[test]
fn messages_are_equal_and_ordered_by_id_alone() {
    let a = message(1, "Ann");
    let b = message(1, "Bob");
    let c = message(2, "Ann");
    assert!(a == b);
    assert!(a != c);
    assert_eq!(a.partial_cmp(&c), Some(Ordering::Less));
    assert_eq!(c.partial_cmp(&a), Some(Ordering::Greater));
    assert_eq!(a.partial_cmp(&b), Some(Ordering::Equal));
    assert_eq!(c.cmp_by_id(&b), Ordering::Greater);
}

#[test]
fn the_menu_starts_on_the_list() {
    let menu = MenuSelection::default();
    assert!(menu.is_received());
    assert!(!menu.is_new_msg());
    assert_eq!(menu.email(), None);
    assert_eq!(menu.screen(), Screen::InboxList);
    assert!(menu.received_tab_active());
    assert!(!menu.write_tab_active());
}

#[test]
fn writing_a_message_toggles_and_closes_the_opened_one() {
    let mut menu = MenuSelection::default();
    menu.open_email(4);
    assert_eq!(menu.screen(), Screen::OpenMessage(4));
    assert!(!menu.is_received());
    menu.at_new_msg();
    assert!(menu.is_new_msg());
    assert_eq!(menu.email(), None);
    assert_eq!(menu.screen(), Screen::NewMessage);
    assert!(menu.write_tab_active());
    assert!(!menu.received_tab_active());
    menu.at_new_msg();
    assert!(!menu.is_new_msg());
    assert_eq!(menu.screen(), Screen::InboxList);
}

#[test]
fn an_opened_message_shows_over_the_new_message_window() {
    let mut menu = MenuSelection::default();
    menu.at_new_msg();
    menu.open_email(9);
    assert!(menu.is_new_msg());
    assert_eq!(menu.screen(), Screen::OpenMessage(9));
    menu.at_inbox_list();
    assert!(menu.is_received());
    assert_eq!(menu.screen(), Screen::InboxList);
}

#[test]
fn demo_messages_depend_on_the_identity() {
    let mut inbox = Inbox::new(vec![]).unwrap();
    inbox.load_messages(&identity(0, "a"));
    let m = inbox.messages();
    assert_eq!(m.len(), 2);
    assert_eq!(m[0].from, "Ian's Other Account");
    assert_eq!(m[0].title, "Email from Ian's Other Account");
    assert_eq!(m[1].from, "Mary");
    assert_eq!(
        m[1].content,
        "Lorem ipsum dolor sit amet, consectetur adipiscing elit...".repeat(10)
    );
    assert!(!m[0].read && !m[1].read);
    inbox.load_messages(&identity(1, "b"));
    let m = inbox.messages();
    assert_eq!(m[0].from, "Ian Clarke");
    assert_eq!(m[0].title, "Email from Ian");
    assert_eq!(m[1].from, "Jane");
    assert_eq!(m[1].id, 1);
}

#[test]
fn marking_as_read_marks_exactly_the_listed_messages() {
    let mut inbox = Inbox::new(vec![]).unwrap();
    inbox.load_messages(&identity(0, "a"));
    assert_eq!(inbox.mark_as_read(&[1, 42]), Ok(()));
    assert!(!inbox.messages()[0].read);
    assert!(inbox.messages()[1].read);
    assert_eq!(inbox.mark_as_read(&[1]), Ok(()));
    assert!(inbox.messages()[1].read);
    assert!(!inbox.messages()[0].read);
}

#[test]
fn messages_are_found_by_id() {
    let mut inbox = Inbox::new(vec![]).unwrap();
    assert_eq!(inbox.message_index(0), None);
    inbox.load_messages(&identity(0, "a"));
    assert_eq!(inbox.message_index(0), Some(0));
    assert_eq!(inbox.message_index(1), Some(1));
    assert_eq!(inbox.message_index(2), None);
}

#[test]
fn sending_and_removing_without_a_node_succeed() {
    let inbox = Inbox::new(vec![identity(0, "a")]).unwrap();
    assert_eq!(inbox.active_id(), 0);
    assert_eq!(inbox.send_message("to", "title", "content"), Ok(()));
    assert_eq!(inbox.remove_messages(&[0]), Ok(()));
}

#[test]
fn the_demo_user_has_two_identities_and_logs_in_and_out() {
    let mut user = User::new(&test_key_pem()).unwrap();
    assert!(user.is_identified());
    assert!(user.private_key().is_some());
    let key_pem = user.private_key().unwrap().pem().to_string();
    assert_eq!(user.identities()[0].pub_key.pem(), key_pem);
    assert_eq!(user.identities()[1].pub_key.pem(), key_pem);
    assert_eq!(
        user.identities()[0].pub_key.key(),
        &user.private_key().unwrap().key().to_public_key()
    );
    assert_eq!(user.identities().len(), 2);
    assert_eq!(user.identities()[0].alias, "ian.clarke@freenet.org");
    assert_eq!(user.identities()[1].alias, "other.stuff@freenet.org");
    assert!(user.logged_id().is_none());
    assert_eq!(user.app_screen(), AppScreen::IdentifiersList);
    user.set_logged_id(1);
    assert_eq!(user.logged_id().unwrap().id, 1);
    assert_eq!(user.app_screen(), AppScreen::UserInbox);
    user.log_out();
    assert!(user.logged_id().is_none());
    assert_eq!(user.app_screen(), AppScreen::IdentifiersList);
}

#[test]
fn a_user_needs_a_valid_private_key() {
    assert!(User::new("not a key").is_err());
}

#[test]
fn demo_contracts_need_two_valid_keys() {
    let (pem_1, pem_2) = (test_key_pem(), test_key_pem());
    let ids = freenet::inbox::demo_contracts(&pem_1, &pem_2).unwrap();
    assert_eq!(ids[0].pub_key.pem(), pem_1);
    assert_eq!(ids[1].pub_key.pem(), pem_2);
    assert_eq!(ids.len(), 2);
    assert_eq!(ids[0].id, 0);
    assert_eq!(ids[0].alias, "ian.clarke@freenet.org");
    assert_eq!(ids[1].id, 1);
    assert_eq!(ids[1].alias, "other.stuff@freenet.org");
    assert!(freenet::inbox::demo_contracts("bad", &test_key_pem()).is_err());
    assert!(freenet::inbox::demo_contracts(&test_key_pem(), "bad").is_err());
}
