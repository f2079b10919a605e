//! Choosing the category of a broadcast from the two-level list that the
//! service offers: what each answer typed at the menu leads to.

use vstd::prelude::*;
use crate::error::BiliLiveError;
use crate::text::{all_digits, is_digit, char_vec, parse_u32, parse_u64, u32_value, u64_value};

verus! {

/// One category that a broadcast can have.
#[derive(Debug, Clone, PartialEq, Eq)]
pub struct Area {
    /// The category's id as the service writes it.
    pub id: String,
    pub name: String,
}

/// A group of categories; `areas` is `None` where the list holds none.
#[derive(Debug, Clone, PartialEq, Eq)]
pub struct AreaGroup {
    pub name: String,
    pub areas: Option<Vec<Area>>,
}

/// Which menu is shown.
#[derive(Debug, Clone, Copy, PartialEq, Eq, Structural)]
pub enum MenuState {
    /// The list of groups.
    Groups,
    /// The categories of the group at this index.
    Areas(usize),
}

/// What follows an answer at the menu.
#[derive(Debug, Clone, PartialEq, Eq)]
pub enum MenuAction {
    /// Show this menu and read an answer.
    Ask(MenuState),
    /// The category with this id is chosen; it stands at this index in its
    /// group.
    Chosen(u32, usize),
    /// The choice failed.
    Fail(BiliLiveError),
}

/// Whether a character is numeric in the sense of `char::is_numeric`.
pub uninterp spec fn numeric_char(c: char) -> bool;

/// Relies on `char::is_numeric`: whether the character is of a numeric
/// general category; the ASCII digits are.
#[verifier::external_body]
fn is_numeric(c: char) -> (r: bool)
    ensures
        r == numeric_char(c),
        '0' <= c <= '9' ==> r,
{
    c.is_numeric()
}

/// The id that a category's id text stands for: its numeric characters, read
/// as a `u32`.
pub open spec fn area_id_value(id: Seq<char>) -> Option<u32> {
    u32_value(id.filter(|c: char| numeric_char(c)))
}

/// The menu states that make sense for `groups`.
pub open spec fn menu_state_ok(groups: Seq<AreaGroup>, s: MenuState) -> bool {
    match s {
        MenuState::Groups => true,
        MenuState::Areas(g) => g < groups.len() && groups[g as int].areas is Some,
    }
}

/// The id of a category, from its id text.
pub fn area_id(id: &str) -> (r: Option<u32>)
    ensures
        r == area_id_value(id@),
        all_digits(id@) ==> r == u32_value(id@),
{
    let cs = char_vec(id);
    let ghost f = |c: char| numeric_char(c);
    let mut kept: Vec<char> = Vec::new();
    let mut i: usize = 0;
    while i < cs.len()
        invariant
            i <= cs@.len(),
            cs@ == id@,
            f == (|c: char| numeric_char(c)),
            kept@ == cs@.take(i as int).filter(f),
            all_digits(cs@.take(i as int)) ==> kept@ == cs@.take(i as int),
        decreases cs@.len() - i,
    {
        let c = cs[i];
        proof {
            assert(cs@.take(i as int + 1) =~= cs@.take(i as int).push(c));
            cs@.take(i as int).lemma_filter_push(c, f);
        }
        if is_numeric(c) {
            kept.push(c);
        }
        proof {
            if all_digits(cs@.take(i as int + 1)) {
                assert(cs@.take(i as int + 1)[i as int] == c);
                assert(all_digits(cs@.take(i as int))) by {
                    assert forall|j: int| 0 <= j < i implies is_digit(#[trigger] cs@.take(i as int)[j]) by {
                        assert(cs@.take(i as int)[j] == cs@.take(i as int + 1)[j]);
                    }
                }
            }
        }
        i = i + 1;
    }
    assert(cs@.take(cs@.len() as int) =~= cs@);
    parse_u32(kept.as_slice())
}

/// What the answer `input`, already trimmed, leads to at the menu `state`.
/// The answers count from 1; 0 at the category menu goes back to the groups.
pub fn menu_step(groups: &Vec<AreaGroup>, state: MenuState, input: &str) -> (r: MenuAction)
    requires
        menu_state_ok(groups@, state),
    ensures
        r matches MenuAction::Ask(s) ==> menu_state_ok(groups@, s),
        u64_value(input@) is None ==> r matches MenuAction::Fail(BiliLiveError::InputError(_)),
        match u64_value(input@) {
            None => true,
            Some(n) => match state {
                MenuState::Groups => if n == 0 || n > groups@.len() || groups@[n - 1].areas is None {
                    r == MenuAction::Ask(MenuState::Groups)
                } else {
                    r == MenuAction::Ask(MenuState::Areas((n - 1) as usize))
                },
                MenuState::Areas(g) => {
                    let areas = groups@[g as int].areas->0@;
                    if n == 0 {
                        r == MenuAction::Ask(MenuState::Groups)
                    } else if n > areas.len() {
                        r == MenuAction::Ask(MenuState::Areas(g))
                    } else {
                        &&& match area_id_value(areas[n - 1].id@) {
                            Some(id) => r == MenuAction::Chosen(id, (n - 1) as usize),
                            None => r matches MenuAction::Fail(BiliLiveError::ParseError(_)),
                        }
                        &&& all_digits(areas[n - 1].id@) ==> match u32_value(areas[n - 1].id@) {
                            Some(id) => r == MenuAction::Chosen(id, (n - 1) as usize),
                            None => r matches MenuAction::Fail(BiliLiveError::ParseError(_)),
                        }
                    }
                },
            },
        },
{
    let cs = char_vec(input);
    let n = match parse_u64(cs.as_slice()) {
        Some(n) => n,
        None => return MenuAction::Fail(BiliLiveError::InputError("not a number".to_owned())),
    };
    match state {
        MenuState::Groups => {
            if n == 0 || n > groups.len() as u64 {
                return MenuAction::Ask(MenuState::Groups);
            }
            let k = (n - 1) as usize;
            match &groups[k].areas {
                Some(_) => MenuAction::Ask(MenuState::Areas(k)),
                None => MenuAction::Ask(MenuState::Groups),
            }
        },
        MenuState::Areas(g) => {
            let areas = match &groups[g].areas {
                Some(a) => a,
                None => return MenuAction::Ask(MenuState::Groups),
            };
            if n == 0 {
                return MenuAction::Ask(MenuState::Groups);
            }
            if n > areas.len() as u64 {
                return MenuAction::Ask(MenuState::Areas(g));
            }
            let k = (n - 1) as usize;
            match area_id(areas[k].id.as_str()) {
                Some(id) => MenuAction::Chosen(id, k),
                None => MenuAction::Fail(BiliLiveError::ParseError("bad category id".to_owned())),
            }
        },
    }
}

/// The category of the last broadcast, from the `id` and `name` fields of
/// the service's answer, both as the service wrote them.
pub fn recent_area(id: Option<String>, name: Option<String>) -> (r: Result<
    (String, String),
    BiliLiveError,
>)
    ensures
        id is None || name is None ==> r matches Err(BiliLiveError::ParseError(_)),
        id is Some && name is Some ==> (r matches Ok((i, n)) && i@ == id->0@ && n@
            == name->0@),
{
    let id = match id {
        Some(i) => i,
        None => return Err(BiliLiveError::ParseError("no category id".to_owned())),
    };
    let name = match name {
        Some(n) => n,
        None => return Err(BiliLiveError::ParseError("no category name".to_owned())),
    };
    Ok((id, name))
}

/// A category id written in decimal, as `u32::from_str` reads it.
pub fn parse_area_id(id: &str) -> (r: Result<u32, BiliLiveError>)
    ensures
        match u32_value(id@) {
            Some(v) => r == Ok::<u32, BiliLiveError>(v),
            None => r matches Err(BiliLiveError::ParseError(_)),
        },
{
    let cs = char_vec(id);
    match parse_u32(cs.as_slice()) {
        Some(v) => Ok(v),
        None => Err(BiliLiveError::ParseError("category id is not a number".to_owned())),
    }
}

/// Whether the answer to "use the last category?", already trimmed, says
/// yes: an empty answer or `y` in either case.
pub fn wants_recent_area(answer: &str) -> (r: bool)
    ensures
        r == (answer@.len() == 0 || answer@ == seq!['y'] || answer@ == seq!['Y']),
{
    let cs = char_vec(answer);
    if cs.len() == 0 {
        return true;
    }
    if cs.len() == 1 && (cs[0] == 'y' || cs[0] == 'Y') {
        assert(cs@ =~= seq![cs[0]]);
        return true;
    }
    false
}

} // verus!
