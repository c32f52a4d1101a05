use sub4usd::pages::{asset_url, audio_name, audio_name_path, index_page, is_listed, sentences_page, Sentence};
use sub4usd::requests::{event_from_request, get_text, Chat, From, TextEventRequest, TextMessage};
use sub4usd::schema::{EventIden, EventType, UsdSubIden};
use sub4usd::store;
use sub4usd::worker::{toggle, Data, DataType};
use sub4usd::text::trim;

fn request(text: &str) -> TextEventRequest {
    TextEventRequest {
        update_id: 1,
        message: TextMessage {
            date: 0,
            chat: Chat {
                last_name: "L".to_string(),
                id: 77,
                chat_type: "private".to_string(),
                first_name: "F".to_string(),
                username: "u".to_string(),
            },
            message_id: 2,
            from: From {
                last_name: "L".to_string(),
                id: 5,
                first_name: "Ann".to_string(),
                username: "ann".to_string(),
            },
            text: text.to_string(),
        },
    }
}

#[test]
fn command_name_drops_whitespace_and_slash() {
    assert_eq!(get_text(&request("  /levada_subscription \n")), "levada_subscription");
    assert_eq!(get_text(&request("usd")), "usd");
    assert_eq!(get_text(&request("   ")), "");
    assert_eq!(get_text(&request("//x")), "/x");
}

#[test]
fn trim_matches_std() {
    for s in ["", "  a b  ", "\u{3000}x\u{85}", "\t\n", "x"] {
        assert_eq!(trim(s), s.trim());
    }
}

#[test]
fn request_becomes_a_subscription() {
    let e = event_from_request(&request(" /standup_subscription"));
    assert_eq!(e.id, 0);
    assert_eq!(e.chat_id, 77);
    assert_eq!(e.typ, EventType::StandupSubscription);
    assert_eq!(e.user.as_deref(), Some("Ann"));
    assert!(e.meta.is_none());
    let other = event_from_request(&request("/weather"));
    assert_eq!(other.typ, EventType::UsdSubscription);
}

#[test]
fn event_type_names_round_trip() {
    for t in [EventType::UsdSubscription, EventType::LevadaSubscription, EventType::StandupSubscription] {
        assert_eq!(EventType::from_name(t.as_str()), t);
    }
    assert_eq!(EventType::LevadaSubscription.as_str(), "levada_subscription");
}

#[test]
fn table_names() {
    assert_eq!(EventIden::Table.name(), "event");
    assert_eq!(EventIden::ChatID.name(), "chat_id");
    assert_eq!(UsdSubIden::Table.name(), "usd_sub");
}

#[test]
fn existing_subscription_is_deleted() {
    assert_eq!(toggle(true), DataType::Delete);
    assert_eq!(toggle(false), DataType::Add);
    let d = Data::new(event_from_request(&request("/usd_subscription")), DataType::Add);
    assert_eq!(d.typ, DataType::Add);
    assert_eq!(d.event.chat_id, 77);
}

#[test]
fn audio_names() {
    assert_eq!(audio_name(12), "12.mp3");
    assert_eq!(audio_name(-3), "-3.mp3");
    assert_eq!(audio_name_path(7), "./assets/7.mp3");
    assert_eq!(asset_url("7.mp3"), "/assets/7.mp3");
}

#[test]
fn pages() {
    let ids = vec!["1".to_string(), "22".to_string()];
    assert!(is_listed(&ids, "22"));
    assert!(!is_listed(&ids, "2"));
    let rows = vec![
        store::Sentence { id: 2, text: "b".to_string(), uri: None },
        store::Sentence { id: 1, text: "a".to_string(), uri: Some("1.mp3".to_string()) },
    ];
    let page = sentences_page(&ids, "1", &rows);
    assert!(page.is_admin);
    assert_eq!(page.sentences_url, "/sentences");
    assert_eq!(page.sentences.len(), 2);
    assert_eq!(page.sentences[0].id, 2);
    assert_eq!(page.sentences[1].text, "a");
    assert!(!sentences_page(&ids, "3", &rows).is_admin);
    let s = Sentence::new(3, "c".to_string());
    assert_eq!(s.id, 3);
    assert_eq!(index_page().auth_url, "/auth");
}
