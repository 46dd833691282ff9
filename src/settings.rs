use vstd::prelude::*;

verus! {

/// The theme used when none is stored.
pub const DEFAULT_THEME: &'static str = "default";

/// The theme the pop-ups are drawn with.
#[derive(Debug)]
pub struct Theme {
    pub name: String,
}

/// The screen the pop-ups appear on.
#[derive(Debug)]
pub struct Screen {
    /// Index of the chosen screen, or -1 for the first one.
    pub id: i32,
    /// Name of the chosen screen, or empty.
    pub name: String,
}

/// Whether new pop-ups are held back.
#[derive(Debug, Clone, Copy, PartialEq, Eq, Structural)]
pub struct DoNotDisturb {
    pub value: bool,
}

/// The user's settings.
#[derive(Debug)]
pub struct Settings {
    pub theme: Theme,
    pub screen: Screen,
    pub do_not_disturb: DoNotDisturb,
}

/// The theme name a stored value stands for.
pub open spec fn theme_name_of(value: Option<String>) -> Seq<char> {
    match value {
        Some(v) => v@,
        None => DEFAULT_THEME@,
    }
}

/// The index of the last screen of `names` called `v`, or -1.
pub open spec fn last_index_of(names: Seq<String>, v: Seq<char>) -> int
    decreases names.len(),
{
    if names.len() == 0 {
        -1
    } else if names.last()@ == v {
        names.len() - 1
    } else {
        last_index_of(names.drop_last(), v)
    }
}

/// The index of the screen a stored value chooses among `names`, or -1.
pub open spec fn screen_id_of(value: Option<String>, names: Seq<String>) -> int {
    match value {
        Some(v) => last_index_of(names, v@),
        None => -1,
    }
}

/// The last index of `v` is -1 or an index that holds `v`.
pub proof fn lemma_last_index_of(names: Seq<String>, v: Seq<char>)
    ensures
        -1 <= last_index_of(names, v) < names.len(),
        last_index_of(names, v) >= 0 ==> names[last_index_of(names, v)]@ == v,
    decreases names.len(),
{
    if names.len() > 0 {
        lemma_last_index_of(names.drop_last(), v);
    }
}

impl Theme {
    /// Takes the stored theme name; no stored value means the default theme.
    pub fn set(&mut self, value: Option<String>)
        ensures
            final(self).name@ == theme_name_of(value),
    {
        proof {
            reveal_strlit("default");
        }
        self.name = match value {
            Some(v) => v,
            None => DEFAULT_THEME.to_string(),
        };
    }
}

impl Screen {
    /// Takes the stored screen name: the last screen of `screen_names` with that name is
    /// chosen; when none has it, or nothing is stored, the first screen is used (-1).
    pub fn set(&mut self, value: Option<String>, screen_names: &Vec<String>)
        requires
            screen_names@.len() <= i32::MAX,
        ensures
            final(self).id == screen_id_of(value, screen_names@),
            final(self).id >= 0 ==> final(self).name@ == screen_names@[final(self).id as int]@,
            final(self).id < 0 ==> final(self).name@.len() == 0,
    {
        let mut screen_id: i32 = -1;
        let mut screen_name = String::new();
        if let Some(v) = value {
            let mut i: usize = 0;
            while i < screen_names.len()
                invariant
                    screen_names@.len() <= i32::MAX,
                    i <= screen_names@.len(),
                    screen_id == last_index_of(screen_names@.take(i as int), v@),
                    screen_id >= 0 ==> screen_name@ == screen_names@[screen_id as int]@,
                    screen_id < 0 ==> screen_name@.len() == 0,
                decreases screen_names.len() - i,
            {
                proof {
                    assert(screen_names@.take(i + 1).drop_last() == screen_names@.take(i as int));
                    lemma_last_index_of(screen_names@.take(i as int), v@);
                }
                if screen_names[i].eq(&v) {
                    screen_id = i as i32;
                    screen_name = screen_names[i].clone();
                }
                i += 1;
            }
            proof {
                assert(screen_names@.take(screen_names@.len() as int) == screen_names@);
            }
        }
        self.id = screen_id;
        self.name = screen_name;
    }
}

impl DoNotDisturb {
    pub fn set(&mut self, value: bool)
        ensures
            final(self).value == value,
    {
        self.value = value;
    }
}

/// The settings at start-up, from the stored theme and screen names. Do-not-disturb
/// always starts off.
pub fn load_settings(
    theme_value: Option<String>,
    screen_value: Option<String>,
    screen_names: &Vec<String>,
) -> (r: Settings)
    requires
        screen_names@.len() <= i32::MAX,
    ensures
        r.theme.name@ == theme_name_of(theme_value),
        r.screen.id == screen_id_of(screen_value, screen_names@),
        r.screen.id >= 0 ==> r.screen.name@ == screen_names@[r.screen.id as int]@,
        r.screen.id < 0 ==> r.screen.name@.len() == 0,
        !r.do_not_disturb.value,
{
    let mut theme = Theme { name: String::new() };
    theme.set(theme_value);
    let mut screen = Screen { id: -1, name: String::new() };
    screen.set(screen_value, screen_names);
    Settings { theme, screen, do_not_disturb: DoNotDisturb { value: false } }
}

} // verus!
