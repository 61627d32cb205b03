use deal_sync::dialogue::{dialogue_step, label_rows, object_type_labels, project_labels, DialogueAction, State};

fn reply_of(a: &DialogueAction) -> Option<String> {
    match a {
        DialogueAction::Reply(t) => Some(t.clone()),
        _ => None,
    }
}

#[test]
fn start_command_asks_for_project() {
    let s = dialogue_step(&State::Start, Some("/start"), &vec![]);
    assert!(matches!(s.action, DialogueAction::AskProject));
    assert!(matches!(s.next, Some(State::ChooseProject)));
    let s = dialogue_step(&State::Start, Some("hello"), &vec![]);
    assert!(matches!(s.action, DialogueAction::Ignore));
    assert!(s.next.is_none());
}

#[test]
fn project_must_come_from_buttons() {
    let s = dialogue_step(&State::ChooseProject, Some("ЖК Формат"), &vec![]);
    assert!(matches!(s.action, DialogueAction::AskObjectType));
    assert!(matches!(s.next, Some(State::ChooseObjectType { ref project }) if project == "ЖК Формат"));
    let s = dialogue_step(&State::ChooseProject, Some("Другое"), &vec![]);
    assert_eq!(reply_of(&s.action).unwrap(), "Сделайте выбор кнопками");
    assert!(s.next.is_none());
    let s = dialogue_step(&State::ChooseProject, None, &vec![]);
    assert_eq!(reply_of(&s.action).unwrap(), "Сделайте выбор кнопками");
}

#[test]
fn object_type_leads_to_house_choice() {
    let st = State::ChooseObjectType { project: "DNS Сити".to_string() };
    let s = dialogue_step(&st, Some("Кладовки"), &vec![]);
    assert!(matches!(s.action, DialogueAction::AskHouse { ref project, ref object_type } if project == "DNS Сити" && object_type == "Кладовки"));
    assert!(matches!(s.next, Some(State::ChooseHouseNumber { .. })));
    let s = dialogue_step(&st, Some("Дома"), &vec![]);
    assert_eq!(reply_of(&s.action).unwrap(), "Сделайте выбор кнопками");
}

#[test]
fn house_must_be_listed() {
    let st = State::ChooseHouseNumber { project: "DNS Сити".to_string(), object_type: "Квартиры".to_string() };
    let s = dialogue_step(&st, Some("7"), &vec![3, 7]);
    assert!(matches!(s.action, DialogueAction::ListObjects { house: 7, .. }));
    assert!(matches!(s.next, Some(State::ChooseObjectNumber { house: 7, .. })));
    let s = dialogue_step(&st, Some("8"), &vec![3, 7]);
    assert_eq!(reply_of(&s.action).unwrap(), "Сделайте выбор кнопками");
    let s = dialogue_step(&st, Some("seven"), &vec![3, 7]);
    assert_eq!(reply_of(&s.action).unwrap(), "Сделайте выбор кнопками");
}

#[test]
fn object_number_accepts_command_form() {
    let st = State::ChooseObjectNumber { project: "DNS Сити".to_string(), object_type: "Квартиры".to_string(), house: 7 };
    let s = dialogue_step(&st, Some("/12"), &vec![]);
    assert!(matches!(s.action, DialogueAction::ShowDeal { house: 7, number: 12, .. }));
    assert!(matches!(s.next, Some(State::Start)));
    let s = dialogue_step(&st, Some("//5"), &vec![]);
    assert!(matches!(s.action, DialogueAction::ShowDeal { number: 5, .. }));
    let s = dialogue_step(&st, Some("/x"), &vec![]);
    assert_eq!(reply_of(&s.action).unwrap(), "Шаблон: /номер помещения");
    assert!(s.next.is_none());
}

#[test]
fn buttons_two_to_a_row() {
    let rows = label_rows(&project_labels());
    assert_eq!(rows, vec![vec!["DNS Сити".to_string(), "ЖК Формат".to_string()]]);
    assert_eq!(label_rows(&object_type_labels()).len(), 1);
    let houses: Vec<String> = vec!["1".to_string(), "2".to_string(), "3".to_string()];
    assert_eq!(label_rows(&houses), vec![vec!["1".to_string(), "2".to_string()], vec!["3".to_string()]]);
    assert!(label_rows(&vec![]).is_empty());
    assert!(matches!(State::default(), State::Start));
}
