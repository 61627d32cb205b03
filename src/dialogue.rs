use vstd::prelude::*;
use vstd::string::*;
use crate::text::{i32_of, parse_i32, same_text, starts_with_text, trim_leading, trim_leading_char};

verus! {

/// Where the chat dialogue stands.
pub enum State {
    Start,
    ChooseProject,
    ChooseObjectType { project: String },
    ChooseHouseNumber { project: String, object_type: String },
    ChooseObjectNumber { project: String, object_type: String, house: i32 },
}

impl Clone for State {
    fn clone(&self) -> (r: State) {
        match self {
            State::Start => State::Start,
            State::ChooseProject => State::ChooseProject,
            State::ChooseObjectType { project } => State::ChooseObjectType { project: project.clone() },
            State::ChooseHouseNumber { project, object_type } => State::ChooseHouseNumber {
                project: project.clone(),
                object_type: object_type.clone(),
            },
            State::ChooseObjectNumber { project, object_type, house } => State::ChooseObjectNumber {
                project: project.clone(),
                object_type: object_type.clone(),
                house: *house,
            },
        }
    }
}

impl Default for State {
    fn default() -> (r: State)
        ensures
            r is Start,
    {
        State::Start
    }
}

/// What the bot does in answer to a message.
pub enum DialogueAction {
    /// Nothing.
    Ignore,
    /// Send this text.
    Reply(String),
    /// Ask for a project, offering the projects as buttons.
    AskProject,
    /// Ask for an object type, offering the types as buttons.
    AskObjectType,
    /// Ask for a house, offering the houses of this project and type.
    AskHouse { project: String, object_type: String },
    /// List the object numbers of this house, then ask for one.
    ListObjects { project: String, object_type: String, house: i32 },
    /// Report the deal with this number.
    ShowDeal { project: String, object_type: String, house: i32, number: i32 },
}

/// The answer to a message: what to do, and the new state (`None` keeps it).
pub struct DialogueStep {
    pub action: DialogueAction,
    pub next: Option<State>,
}

pub open spec fn is_project(t: Seq<char>) -> bool {
    t == "DNS Сити"@ || t == "ЖК Формат"@
}

pub open spec fn is_object_type(t: Seq<char>) -> bool {
    t == "Квартиры"@ || t == "Кладовки"@
}

pub open spec fn use_buttons_text() -> Seq<char> {
    "Сделайте выбор кнопками"@
}

pub open spec fn number_template_text() -> Seq<char> {
    "Шаблон: /номер помещения"@
}

/// The project names offered as buttons.
pub fn project_labels() -> (r: Vec<String>)
    ensures
        r@.len() == 2,
        r@[0]@ == "DNS Сити"@,
        r@[1]@ == "ЖК Формат"@,
{
    let mut v: Vec<String> = Vec::new();
    v.push(String::from_str("DNS Сити"));
    v.push(String::from_str("ЖК Формат"));
    v
}

/// The object types offered as buttons.
pub fn object_type_labels() -> (r: Vec<String>)
    ensures
        r@.len() == 2,
        r@[0]@ == "Квартиры"@,
        r@[1]@ == "Кладовки"@,
{
    let mut v: Vec<String> = Vec::new();
    v.push(String::from_str("Квартиры"));
    v.push(String::from_str("Кладовки"));
    v
}

fn is_project_name(t: &str) -> (r: bool)
    ensures
        r == is_project(t@),
{
    same_text(t, "DNS Сити") || same_text(t, "ЖК Формат")
}

fn is_object_type_name(t: &str) -> (r: bool)
    ensures
        r == is_object_type(t@),
{
    same_text(t, "Квартиры") || same_text(t, "Кладовки")
}

fn contains_house(houses: &Vec<i32>, h: i32) -> (r: bool)
    ensures
        r == houses@.contains(h),
{
    let mut i: usize = 0;
    while i < houses.len()
        invariant
            0 <= i <= houses@.len(),
            forall|k: int| 0 <= k < i ==> houses@[k] != h,
        decreases houses@.len() - i,
    {
        if houses[i] == h {
            return true;
        }
        i = i + 1;
    }
    false
}

fn keep(action: DialogueAction) -> (r: DialogueStep)
    ensures
        r.action == action,
        r.next is None,
{
    DialogueStep { action, next: None }
}

fn use_buttons() -> (r: DialogueStep)
    ensures
        r.action matches DialogueAction::Reply(t) && t@ == use_buttons_text(),
        r.next is None,
{
    keep(DialogueAction::Reply(String::from_str("Сделайте выбор кнопками")))
}

/// The answer to a message with text `text` (none for a message without
/// text) in state `state`; `houses` are the houses of the chosen project and
/// type, which only a house choice reads.
pub fn dialogue_step(state: &State, text: Option<&str>, houses: &Vec<i32>) -> (r: DialogueStep)
    ensures
        match state {
            State::Start => match text {
                Some(t) => if t@.len() >= 6 && t@.subrange(0, 6) == "/start"@ {
                    r.action is AskProject && r.next matches Some(State::ChooseProject)
                } else {
                    r.action is Ignore && r.next is None
                },
                None => r.action is Ignore && r.next is None,
            },
            State::ChooseProject => match text {
                Some(t) => if is_project(t@) {
                    r.action is AskObjectType && (r.next matches Some(
                        State::ChooseObjectType { project },
                    ) && project@ == t@)
                } else {
                    (r.action matches DialogueAction::Reply(m) && m@ == use_buttons_text())
                        && r.next is None
                },
                None => (r.action matches DialogueAction::Reply(m) && m@ == use_buttons_text())
                    && r.next is None,
            },
            State::ChooseObjectType { project } => match text {
                Some(t) => if is_object_type(t@) {
                    (r.action matches DialogueAction::AskHouse { project: p, object_type: o }
                        && p@ == project@ && o@ == t@) && (r.next matches Some(
                        State::ChooseHouseNumber { project: p, object_type: o },
                    ) && p@ == project@ && o@ == t@)
                } else {
                    (r.action matches DialogueAction::Reply(m) && m@ == use_buttons_text())
                        && r.next is None
                },
                None => (r.action matches DialogueAction::Reply(m) && m@ == use_buttons_text())
                    && r.next is None,
            },
            State::ChooseHouseNumber { project, object_type } => match text {
                Some(t) => match i32_of(t@) {
                    Some(h) => if houses@.contains(h) {
                        (r.action matches DialogueAction::ListObjects {
                            project: p,
                            object_type: o,
                            house,
                        } && p@ == project@ && o@ == object_type@ && house == h) && (
                        r.next matches Some(
                            State::ChooseObjectNumber { project: p, object_type: o, house },
                        ) && p@ == project@ && o@ == object_type@ && house == h)
                    } else {
                        (r.action matches DialogueAction::Reply(m) && m@ == use_buttons_text())
                            && r.next is None
                    },
                    None => (r.action matches DialogueAction::Reply(m) && m@ == use_buttons_text())
                        && r.next is None,
                },
                None => (r.action matches DialogueAction::Reply(m) && m@ == use_buttons_text())
                    && r.next is None,
            },
            State::ChooseObjectNumber { project, object_type, house } => match text {
                Some(t) => match i32_of(trim_leading(t@, '/')) {
                    Some(n) => (r.action matches DialogueAction::ShowDeal {
                        project: p,
                        object_type: o,
                        house: h,
                        number,
                    } && p@ == project@ && o@ == object_type@ && h == *house && number == n)
                        && r.next matches Some(State::Start),
                    None => (r.action matches DialogueAction::Reply(m) && m@
                        == number_template_text()) && r.next is None,
                },
                None => r.action is Ignore && r.next is None,
            },
        },
{
    match state {
        State::Start => match text {
            Some(t) => {
                proof {
                    reveal_strlit("/start");
                }
                if starts_with_text(t, "/start") {
                    DialogueStep { action: DialogueAction::AskProject, next: Some(State::ChooseProject) }
                } else {
                    keep(DialogueAction::Ignore)
                }
            },
            None => keep(DialogueAction::Ignore),
        },
        State::ChooseProject => match text {
            Some(t) => {
                if is_project_name(t) {
                    DialogueStep {
                        action: DialogueAction::AskObjectType,
                        next: Some(State::ChooseObjectType { project: String::from_str(t) }),
                    }
                } else {
                    use_buttons()
                }
            },
            None => use_buttons(),
        },
        State::ChooseObjectType { project } => match text {
            Some(t) => {
                if is_object_type_name(t) {
                    DialogueStep {
                        action: DialogueAction::AskHouse {
                            project: project.clone(),
                            object_type: String::from_str(t),
                        },
                        next: Some(
                            State::ChooseHouseNumber {
                                project: project.clone(),
                                object_type: String::from_str(t),
                            },
                        ),
                    }
                } else {
                    use_buttons()
                }
            },
            None => use_buttons(),
        },
        State::ChooseHouseNumber { project, object_type } => match text {
            Some(t) => match parse_i32(t) {
                Some(h) => {
                    if contains_house(houses, h) {
                        DialogueStep {
                            action: DialogueAction::ListObjects {
                                project: project.clone(),
                                object_type: object_type.clone(),
                                house: h,
                            },
                            next: Some(
                                State::ChooseObjectNumber {
                                    project: project.clone(),
                                    object_type: object_type.clone(),
                                    house: h,
                                },
                            ),
                        }
                    } else {
                        use_buttons()
                    }
                },
                None => use_buttons(),
            },
            None => use_buttons(),
        },
        State::ChooseObjectNumber { project, object_type, house } => match text {
            Some(t) => {
                let payload = trim_leading_char(t, '/');
                match parse_i32(payload.as_str()) {
                    Some(n) => DialogueStep {
                        action: DialogueAction::ShowDeal {
                            project: project.clone(),
                            object_type: object_type.clone(),
                            house: *house,
                            number: n,
                        },
                        next: Some(State::Start),
                    },
                    None => keep(
                        DialogueAction::Reply(String::from_str("Шаблон: /номер помещения")),
                    ),
                }
            },
            None => keep(DialogueAction::Ignore),
        },
    }
}

/// Buttons laid out two to a row, in order.
pub fn label_rows(labels: &Vec<String>) -> (r: Vec<Vec<String>>)
    ensures
        r@.len() == (labels@.len() + 1) / 2,
        forall|i: int|
            0 <= i < r@.len() ==> (#[trigger] r@[i])@ == labels@.subrange(
                2 * i,
                if 2 * i + 2 <= labels@.len() { 2 * i + 2 } else { labels@.len() as int },
            ),
{
    let mut rows: Vec<Vec<String>> = Vec::new();
    let mut row: Vec<String> = Vec::new();
    let ghost all = labels@;
    let mut i: usize = 0;
    while i < labels.len()
        invariant
            all == labels@,
            0 <= i <= all.len(),
            i % 2 == row@.len(),
            row@ == all.subrange(i - row@.len(), i as int),
            rows@.len() == i / 2,
            forall|j: int|
                0 <= j < rows@.len() ==> (#[trigger] rows@[j])@ == all.subrange(2 * j, 2 * j + 2),
        decreases all.len() - i,
    {
        let label = labels[i].clone();
        row.push(label);
        i = i + 1;
        if row.len() == 2 {
            assert(row@ =~= all.subrange(i - 2, i as int));
            rows.push(row);
            row = Vec::new();
        } else {
            assert(row@ =~= all.subrange(i - row@.len(), i as int));
        }
    }
    if row.len() > 0 {
        rows.push(row);
    }
    rows
}

} // verus!
