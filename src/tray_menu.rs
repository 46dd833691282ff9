use vstd::prelude::*;

verus! {

/// What choosing a tray menu entry does.
#[derive(Debug)]
pub enum MenuValue {
    /// Switch to the theme of this name.
    Theme(String),
    /// Move the pop-ups to the screen of this index.
    Screen(i32),
}

/// One entry of a tray submenu.
#[derive(Debug)]
pub struct MenuItem {
    pub label: String,
    pub value: MenuValue,
}

/// What a triggered tray action asks for, by the action's object name.
#[derive(Debug, Clone, Copy, PartialEq, Eq, Structural)]
pub enum TrayAction {
    Quit,
    ToggleDoNotDisturb,
    SetTheme,
    SetScreen,
    Unknown,
}

/// The menu entries for the theme directories `dir_names`, one each, in order.
pub fn get_available_themes(dir_names: &Vec<String>) -> (r: Vec<MenuItem>)
    ensures
        r@.len() == dir_names@.len(),
        forall|i: int|
            0 <= i < r@.len() ==> (#[trigger] r@[i]).label == dir_names@[i] && r@[i].value
                == MenuValue::Theme(dir_names@[i]),
{
    let mut values: Vec<MenuItem> = Vec::new();
    let mut i: usize = 0;
    while i < dir_names.len()
        invariant
            i <= dir_names@.len(),
            values@.len() == i,
            forall|q: int|
                0 <= q < i ==> (#[trigger] values@[q]).label == dir_names@[q] && values@[q].value
                    == MenuValue::Theme(dir_names@[q]),
        decreases dir_names.len() - i,
    {
        values.push(
            MenuItem { label: dir_names[i].clone(), value: MenuValue::Theme(dir_names[i].clone()) },
        );
        i += 1;
    }
    values
}

/// The menu entries for the screens `screen_names`, labelled by name and chosen by index.
pub fn get_available_screens(screen_names: &Vec<String>) -> (r: Vec<MenuItem>)
    requires
        screen_names@.len() <= i32::MAX,
    ensures
        r@.len() == screen_names@.len(),
        forall|i: int|
            0 <= i < r@.len() ==> (#[trigger] r@[i]).label == screen_names@[i] && r@[i].value
                == MenuValue::Screen(i as i32),
{
    let mut values: Vec<MenuItem> = Vec::new();
    let mut i: usize = 0;
    while i < screen_names.len()
        invariant
            screen_names@.len() <= i32::MAX,
            i <= screen_names@.len(),
            values@.len() == i,
            forall|q: int|
                0 <= q < i ==> (#[trigger] values@[q]).label == screen_names@[q]
                    && values@[q].value == MenuValue::Screen(q as i32),
        decreases screen_names.len() - i,
    {
        values.push(MenuItem { label: screen_names[i].clone(), value: MenuValue::Screen(i as i32) });
        i += 1;
    }
    values
}

/// What the tray action named `object_name` asks for.
pub fn tray_action(object_name: &String) -> (r: TrayAction)
    ensures
        object_name@ == "quit_action"@ ==> r == TrayAction::Quit,
        object_name@ == "do_not_disturb_action"@ ==> r == TrayAction::ToggleDoNotDisturb,
        object_name@ == "set_theme"@ ==> r == TrayAction::SetTheme,
        object_name@ == "set_screen"@ ==> r == TrayAction::SetScreen,
        object_name@ != "quit_action"@ && object_name@ != "do_not_disturb_action"@
            && object_name@ != "set_theme"@ && object_name@ != "set_screen"@ ==> r
            == TrayAction::Unknown,
{
    proof {
        reveal_strlit("quit_action");
        reveal_strlit("do_not_disturb_action");
        reveal_strlit("set_theme");
        reveal_strlit("set_screen");
        assert("quit_action"@.len() == 11);
        assert("do_not_disturb_action"@.len() == 21);
        assert("set_theme"@.len() == 9);
        assert("set_screen"@.len() == 10);
    }
    if object_name.eq(&"quit_action".to_string()) {
        TrayAction::Quit
    } else if object_name.eq(&"do_not_disturb_action".to_string()) {
        TrayAction::ToggleDoNotDisturb
    } else if object_name.eq(&"set_theme".to_string()) {
        TrayAction::SetTheme
    } else if object_name.eq(&"set_screen".to_string()) {
        TrayAction::SetScreen
    } else {
        TrayAction::Unknown
    }
}

/// The index of the last item of `items` labelled `name`, or -1.
pub open spec fn last_label_index(items: Seq<MenuItem>, name: Seq<char>) -> int
    decreases items.len(),
{
    if items.len() == 0 {
        -1
    } else if items.last().label@ == name {
        items.len() - 1
    } else {
        last_label_index(items.drop_last(), name)
    }
}

/// The last index of a label is -1 or an index of an item with that label.
pub proof fn lemma_last_label_index(items: Seq<MenuItem>, name: Seq<char>)
    ensures
        -1 <= last_label_index(items, name) < items.len(),
    decreases items.len(),
{
    if items.len() > 0 {
        lemma_last_label_index(items.drop_last(), name);
    }
}

/// The entry of an exclusive submenu that shows as chosen for the setting `current`: of
/// the entries labelled `current`, the last one checked wins.
pub fn checked_item(items: &Vec<MenuItem>, current: &String) -> (r: Option<usize>)
    ensures
        last_label_index(items@, current@) >= 0 ==> r == Some(
            last_label_index(items@, current@) as usize,
        ),
        last_label_index(items@, current@) < 0 ==> r is None,
{
    let mut found: Option<usize> = None;
    let mut i: usize = 0;
    while i < items.len()
        invariant
            i <= items@.len(),
            last_label_index(items@.take(i as int), current@) >= 0 ==> found == Some(
                last_label_index(items@.take(i as int), current@) as usize,
            ),
            last_label_index(items@.take(i as int), current@) < 0 ==> found is None,
        decreases items.len() - i,
    {
        proof {
            assert(items@.take(i + 1).drop_last() == items@.take(i as int));
            lemma_last_label_index(items@.take(i as int), current@);
        }
        if items[i].label.eq(current) {
            found = Some(i);
        }
        i += 1;
    }
    proof {
        assert(items@.take(items@.len() as int) == items@);
    }
    found
}

/// The screen entry that shows as chosen for the screen setting `current`: as for
/// `checked_item`, and the first entry when none is labelled `current`.
pub fn checked_screen_item(items: &Vec<MenuItem>, current: &String) -> (r: Option<usize>)
    ensures
        last_label_index(items@, current@) >= 0 ==> r == Some(
            last_label_index(items@, current@) as usize,
        ),
        last_label_index(items@, current@) < 0 && items@.len() > 0 ==> r == Some(0usize),
        items@.len() == 0 ==> r is None,
{
    proof {
        lemma_last_label_index(items@, current@);
    }
    match checked_item(items, current) {
        Some(i) => Some(i),
        None => if items.len() > 0 {
            Some(0)
        } else {
            None
        },
    }
}

} // verus!
