//! Numbers and names as the desktop application shows them.

use vstd::prelude::*;

use crate::profile::{action_label, ActionView, ButtonAction, Profile};
use crate::text::{
    after_prefix, contains_text, dec, dec3, decimal, decimal3, join2, join3, lowercase, lowered, occurs, same_text,
    strip_prefix,
};

verus! {

/// A profile's name as it is shown: the slots of the memory by their number, the first one without.
pub open spec fn display_name(name: Seq<char>) -> Seq<char> {
    match after_prefix(name, "Onboard Slot "@) {
        Some(slot) => if slot == "1"@ {
            "Onboard Memory"@
        } else {
            "Onboard Memory "@ + slot
        },
        None => name,
    }
}

/// A profile's name as it is shown.
pub fn profile_display_name(name: &str) -> (shown: String)
    ensures
        shown@ == display_name(name@),
{
    match strip_prefix(name, "Onboard Slot ") {
        Some(slot) => if same_text(slot.as_str(), "1") {
            "Onboard Memory".to_owned()
        } else {
            join2("Onboard Memory ", slot.as_str())
        },
        None => name.to_owned(),
    }
}

/// A number with a comma before its last three digits, where it has more.
pub open spec fn grouped(n: nat) -> Seq<char> {
    if n >= 1000 {
        dec(n / 1000) + ","@ + dec3((n % 1000) as int)
    } else {
        dec(n)
    }
}

fn group_number(n: u32) -> (text: String)
    ensures
        text@ == grouped(n as nat),
{
    if n >= 1000 {
        join3(decimal((n / 1000) as u64).as_str(), ",", decimal3(n % 1000).as_str())
    } else {
        decimal(n as u64)
    }
}

/// A report rate as a number.
pub fn format_rate_value(rate: u32) -> (text: String)
    ensures
        text@ == grouped(rate as nat),
{
    group_number(rate)
}

/// A report rate.
pub fn format_rate(rate: u32) -> (text: String)
    ensures
        text@ == grouped(rate as nat) + " Hz"@,
{
    join2(format_rate_value(rate).as_str(), " Hz")
}

/// A sensitivity as a number.
pub fn format_dpi(value: u16) -> (text: String)
    ensures
        text@ == grouped(value as nat),
{
    group_number(value as u32)
}

/// A report rate that may be unknown.
pub fn rate_tile(rate: Option<u32>) -> (text: String)
    ensures
        text@ == (match rate {
            Some(rate) => grouped(rate as nat) + " Hz"@,
            None => "-- Hz"@,
        }),
{
    match rate {
        Some(rate) => format_rate(rate),
        None => "-- Hz".to_owned(),
    }
}

/// A sensitivity that may be unknown.
pub fn dpi_tile(dpi: Option<u16>) -> (text: String)
    ensures
        text@ == (match dpi {
            Some(dpi) => grouped(dpi as nat) + " DPI"@,
            None => "-- DPI"@,
        }),
{
    match dpi {
        Some(dpi) => join2(format_dpi(dpi).as_str(), " DPI"),
        None => "-- DPI".to_owned(),
    }
}

/// A charge that may be unknown.
pub fn battery_tile(battery: Option<u8>) -> (text: String)
    ensures
        text@ == (match battery {
            Some(percentage) => dec(percentage as nat) + "%"@,
            None => "--"@,
        }),
{
    match battery {
        Some(percentage) => join2(decimal(percentage as u64).as_str(), "%"),
        None => "--".to_owned(),
    }
}

/// Who controls the settings, in a word.
pub fn memory_label(onboard: Option<bool>) -> (label: &'static str)
    ensures
        label@ == (match onboard {
            Some(true) => "Onboard"@,
            Some(false) => "Ready on save"@,
            None => "Unknown"@,
        }),
{
    match onboard {
        Some(onboard) => if onboard {
            "Onboard"
        } else {
            "Ready on save"
        },
        None => "Unknown",
    }
}

/// The state of a battery in words.
pub open spec fn status_words(status: Seq<char>) -> Seq<char> {
    if status == "discharging"@ {
        "Discharging"@
    } else if status == "recharging"@ {
        "Charging"@
    } else if status == "almost-full"@ {
        "Almost full"@
    } else if status == "full"@ {
        "Full"@
    } else if status == "slow-recharge"@ {
        "Charging slowly"@
    } else if status == "invalid-battery"@ {
        "Battery unavailable"@
    } else if status == "thermal-error"@ {
        "Temperature warning"@
    } else {
        "Status unavailable"@
    }
}

/// The state of a battery in words.
pub fn friendly_status(status: &str) -> (words: &'static str)
    ensures
        words@ == status_words(status@),
{
    if same_text(status, "discharging") {
        "Discharging"
    } else if same_text(status, "recharging") {
        "Charging"
    } else if same_text(status, "almost-full") {
        "Almost full"
    } else if same_text(status, "full") {
        "Full"
    } else if same_text(status, "slow-recharge") {
        "Charging slowly"
    } else if same_text(status, "invalid-battery") {
        "Battery unavailable"
    } else if same_text(status, "thermal-error") {
        "Temperature warning"
    } else {
        "Status unavailable"
    }
}

/// The highest of some values, or a usual one where there are none.
pub open spec fn highest(values: Seq<u16>) -> u16
    decreases values.len(),
{
    if values.len() == 0 {
        800
    } else if values.len() == 1 || values.last() >= highest(values.drop_last()) {
        values.last()
    } else {
        highest(values.drop_last())
    }
}

/// The highest of some values is one of them, and none is higher.
pub proof fn highest_is_highest(values: Seq<u16>)
    requires
        values.len() > 0,
    ensures
        values.contains(highest(values)),
        forall|i: int| 0 <= i < values.len() ==> #[trigger] values[i] <= highest(values),
    decreases values.len(),
{
    if values.len() > 1 {
        let rest = values.drop_last();
        highest_is_highest(rest);
        assert forall|i: int| 0 <= i < values.len() implies #[trigger] values[i] <= highest(values) by {
            if i < rest.len() {
                assert(rest[i] == values[i]);
            }
        }
        if values.last() >= highest(rest) {
            assert(values[values.len() - 1] == highest(values));
        } else {
            let i = choose|i: int| 0 <= i < rest.len() && rest[i] == highest(rest);
            assert(values[i] == highest(values));
        }
    } else {
        assert(values[0] == highest(values));
    }
}

/// The sensitivity that is proposed for one more point: some steps above the highest, but no more than the maximum.
pub open spec fn proposed_dpi(points: Seq<u16>, maximum: u16, step: u16) -> int {
    let wide: int = if step < 50 {
        50
    } else {
        step as int
    };
    let next = highest(points) + wide * 8;
    let fitting: int = if next > 0xffff {
        0xffff
    } else {
        next
    };
    if fitting > maximum {
        maximum as int
    } else {
        fitting
    }
}

fn find_highest(values: &Vec<u16>) -> (value: u16)
    ensures
        value == highest(values@),
{
    if values.len() == 0 {
        return 800;
    }
    let mut value: u16 = values[0];
    let mut i: usize = 1;
    assert(values@.take(1).last() == value);
    while i < values.len()
        invariant
            1 <= i <= values.len(),
            value == highest(values@.take(i as int)),
        decreases values.len() - i,
    {
        assert(values@.take(i + 1).drop_last() =~= values@.take(i as int));
        if values[i] >= value {
            value = values[i];
        }
        i = i + 1;
    }
    assert(values@.take(i as int) =~= values@);
    value
}

/// Proposes a sensitivity for one more point.
pub fn suggested_dpi(profile: &Profile, maximum: u16, step: u16) -> (dpi: u16)
    requires
        step <= 8191,
    ensures
        dpi == proposed_dpi(profile@.dpi_points, maximum, step),
{
    let highest: u16 = find_highest(&profile.dpi_points);
    let wide: u16 = if step < 50 { 50 } else { step };
    let next: u32 = highest as u32 + wide as u32 * 8;
    let fitting: u32 = if next > 0xffff { 0xffff } else { next };
    if fitting > maximum as u32 {
        maximum
    } else {
        fitting as u16
    }
}

/// A value brought down to a multiple of a step, and between two bounds.
pub open spec fn stepped(value: int, minimum: int, maximum: int, step: int) -> int {
    let wide = if step < 1 {
        1
    } else {
        step
    };
    let whole = value / wide * wide;
    if whole < minimum {
        minimum
    } else if whole > maximum {
        maximum
    } else {
        whole
    }
}

/// Brings a sensitivity that the user typed down to a step of the mouse.
pub fn step_dpi(value: u16, minimum: u16, maximum: u16, step: u16) -> (dpi: u16)
    requires
        minimum <= maximum,
    ensures
        dpi == stepped(value as int, minimum as int, maximum as int, step as int),
        minimum <= dpi <= maximum,
{
    let wide: u16 = if step < 1 { 1 } else { step };
    assert(0 <= value as int / wide as int * wide as int <= value) by (nonlinear_arith)
        requires
            wide >= 1,
            value >= 0,
    ;
    let whole: u16 = value / wide * wide;
    if whole < minimum {
        minimum
    } else if whole > maximum {
        maximum
    } else {
        whole
    }
}

/// Actions that belong together, each with the words on its button.
#[derive(Debug)]
pub struct ActionGroup {
    pub name: &'static str,
    pub actions: Vec<(&'static str, ButtonAction)>,
}

/// An [`ActionGroup`] with its texts as sequences.
pub struct GroupView {
    pub name: Seq<char>,
    pub actions: Seq<(Seq<char>, ActionView)>,
}

/// The views of actions with their words.
pub open spec fn choice_views(actions: Seq<(&'static str, ButtonAction)>) -> Seq<(Seq<char>, ActionView)> {
    actions.map_values(|choice: (&'static str, ButtonAction)| (choice.0@, choice.1@))
}

impl View for ActionGroup {
    type V = GroupView;

    open spec fn view(&self) -> GroupView {
        GroupView { name: self.name@, actions: choice_views(self.actions@) }
    }
}

/// The views of groups.
pub open spec fn group_views(groups: Seq<ActionGroup>) -> Seq<GroupView> {
    groups.map_values(|group: ActionGroup| group@)
}

/// The actions that the user can choose from.
pub open spec fn all_groups() -> Seq<GroupView> {
    seq![
        GroupView {
            name: "MOUSE"@,
            actions: seq![
                ("Primary click"@, ActionView::PrimaryClick),
                ("Secondary click"@, ActionView::SecondaryClick),
                ("Middle click"@, ActionView::MiddleClick),
                ("Back"@, ActionView::Back),
                ("Forward"@, ActionView::Forward),
            ],
        },
        GroupView {
            name: "DPI"@,
            actions: seq![
                ("DPI up"@, ActionView::DpiUp),
                ("DPI down"@, ActionView::DpiDown),
                ("DPI cycle"@, ActionView::DpiCycle),
                ("DPI shift"@, ActionView::DpiShift),
            ],
        },
        GroupView { name: "SYSTEM"@, actions: seq![("Disable button"@, ActionView::Disabled)] },
    ]
}

/// The actions that the user can choose from.
pub fn action_groups() -> (groups: Vec<ActionGroup>)
    ensures
        group_views(groups@) == all_groups(),
{
    let mouse = ActionGroup {
        name: "MOUSE",
        actions: vec![
            ("Primary click", ButtonAction::PrimaryClick),
            ("Secondary click", ButtonAction::SecondaryClick),
            ("Middle click", ButtonAction::MiddleClick),
            ("Back", ButtonAction::Back),
            ("Forward", ButtonAction::Forward),
        ],
    };
    let dpi = ActionGroup {
        name: "DPI",
        actions: vec![
            ("DPI up", ButtonAction::DpiUp),
            ("DPI down", ButtonAction::DpiDown),
            ("DPI cycle", ButtonAction::DpiCycle),
            ("DPI shift", ButtonAction::DpiShift),
        ],
    };
    let system = ActionGroup { name: "SYSTEM", actions: vec![("Disable button", ButtonAction::Disabled)] };
    assert(mouse@.actions =~= all_groups()[0].actions);
    assert(dpi@.actions =~= all_groups()[1].actions);
    assert(system@.actions =~= all_groups()[2].actions);
    let groups = vec![mouse, dpi, system];
    assert(group_views(groups@) =~= all_groups());
    groups
}

/// Whether an action is one that the user looks for: its label holds what was typed, without regard to case.
pub open spec fn looked_for(query: Seq<char>, action: ActionView) -> bool {
    query.len() == 0 || occurs(lowered(action_label(action)), lowered(query))
}

/// The actions that the user looks for.
pub open spec fn matching_choices(query: Seq<char>, actions: Seq<(Seq<char>, ActionView)>) -> Seq<
    (Seq<char>, ActionView),
>
    decreases actions.len(),
{
    if actions.len() == 0 {
        Seq::empty()
    } else {
        let before = matching_choices(query, actions.drop_last());
        if looked_for(query, actions.last().1) {
            before.push(actions.last())
        } else {
            before
        }
    }
}

/// The groups that hold an action the user looks for, with those actions only.
pub open spec fn matching_groups_of(query: Seq<char>, groups: Seq<GroupView>) -> Seq<GroupView>
    decreases groups.len(),
{
    if groups.len() == 0 {
        Seq::empty()
    } else {
        let before = matching_groups_of(query, groups.drop_last());
        let found = matching_choices(query, groups.last().actions);
        if found.len() == 0 {
            before
        } else {
            before.push(GroupView { name: groups.last().name, actions: found })
        }
    }
}

fn keep_matching(query: &str, actions: &Vec<(&'static str, ButtonAction)>) -> (kept: Vec<(&'static str, ButtonAction)>)
    ensures
        choice_views(kept@) == matching_choices(query@, choice_views(actions@)),
{
    let lower = lowercase(query);
    let ghost views = choice_views(actions@);
    let mut kept: Vec<(&'static str, ButtonAction)> = Vec::new();
    let mut i: usize = 0;
    assert(choice_views(kept@) =~= matching_choices(query@, views.take(0)));
    while i < actions.len()
        invariant
            i <= actions.len(),
            lower@ == lowered(query@),
            views == choice_views(actions@),
            choice_views(kept@) == matching_choices(query@, views.take(i as int)),
        decreases actions.len() - i,
    {
        let ghost before = choice_views(kept@);
        let label = lowercase(actions[i].1.label().as_str());
        assert(views.take(i + 1).drop_last() =~= views.take(i as int));
        assert(views.take(i + 1).last() == (actions@[i as int].0@, actions@[i as int].1@));
        if query.is_empty() || contains_text(label.as_str(), lower.as_str()) {
            kept.push((actions[i].0, actions[i].1.clone()));
            assert(choice_views(kept@) =~= before.push((actions@[i as int].0@, actions@[i as int].1@)));
        }
        i = i + 1;
    }
    assert(views.take(i as int) =~= views);
    kept
}

/// Finds the actions that the user looks for.
pub fn matching_groups(query: &str) -> (groups: Vec<ActionGroup>)
    ensures
        group_views(groups@) == matching_groups_of(query@, all_groups()),
{
    let all = action_groups();
    let ghost views = all_groups();
    let mut groups: Vec<ActionGroup> = Vec::new();
    let mut i: usize = 0;
    assert(group_views(groups@) =~= matching_groups_of(query@, views.take(0)));
    while i < all.len()
        invariant
            i <= all.len(),
            views == group_views(all@),
            group_views(groups@) == matching_groups_of(query@, views.take(i as int)),
        decreases all.len() - i,
    {
        let ghost before = group_views(groups@);
        let found = keep_matching(query, &all[i].actions);
        assert(views.take(i + 1).drop_last() =~= views.take(i as int));
        assert(views.take(i + 1).last() == all@[i as int]@);
        if found.len() > 0 {
            let group = ActionGroup { name: all[i].name, actions: found };
            groups.push(group);
            assert(group_views(groups@) =~= before.push(group@));
        }
        i = i + 1;
    }
    assert(views.take(i as int) =~= views);
    groups
}

proof fn empty_query_keeps_choices(actions: Seq<(Seq<char>, ActionView)>)
    ensures
        matching_choices(Seq::empty(), actions) == actions,
    decreases actions.len(),
{
    if actions.len() > 0 {
        empty_query_keeps_choices(actions.drop_last());
        assert(actions.drop_last().push(actions.last()) =~= actions);
    }
}

/// A user who looks for nothing in particular sees all actions.
pub proof fn empty_query_shows_everything(groups: Seq<GroupView>)
    requires
        forall|i: int| 0 <= i < groups.len() ==> #[trigger] groups[i].actions.len() > 0,
    ensures
        matching_groups_of(Seq::empty(), groups) == groups,
    decreases groups.len(),
{
    if groups.len() > 0 {
        let before = groups.drop_last();
        assert forall|i: int| 0 <= i < before.len() implies #[trigger] before[i].actions.len() > 0 by {
            assert(groups[i].actions.len() > 0);
        }
        empty_query_shows_everything(before);
        empty_query_keeps_choices(groups.last().actions);
        assert(before.push(groups.last()) =~= groups);
    }
}

}
