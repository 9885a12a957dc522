//! Main menu: the lateral switcher of submenus and its buttons.
use vstd::prelude::*;

verus! {

/// A button of the menu, with its label and whether it is selected.
pub struct Button {
    pub name: &'static str,
    pub selected: bool,
}

impl Button {
    /// A button that is not selected.
    pub fn new(name: &'static str) -> (b: Button)
        ensures
            b.name == name,
            !b.selected,
    {
        Button { name, selected: false }
    }

    /// Sets the selected state of the button.
    pub fn selected(&mut self, selected: bool)
        ensures
            final(self).selected == selected,
            final(self).name == old(self).name,
    {
        self.selected = selected;
    }
}

/// Option that can be selected from the main menu, using a lateral switcher.
#[derive(Debug, Clone, Copy, PartialEq, Eq, Structural)]
pub enum SwitchMenu {
    Highs,
    Fruits,
    Speed,
    Run,
    Parameters,
    Doc,
    Main,
}

/// Number of options of the lateral switcher.
pub const SWITCH_MENUS_COUNT: usize = 6;

/// The option at position `i` of the switcher:
/// Highs, Fruits, Speed, Run, Parameters, Doc.
pub open spec fn switch_menu_at(i: int) -> SwitchMenu {
    if i == 0 {
        SwitchMenu::Highs
    } else if i == 1 {
        SwitchMenu::Fruits
    } else if i == 2 {
        SwitchMenu::Speed
    } else if i == 3 {
        SwitchMenu::Run
    } else if i == 4 {
        SwitchMenu::Parameters
    } else {
        SwitchMenu::Doc
    }
}

/// The option at position `i` of the switcher.
pub fn switch_menu_option(i: usize) -> (m: SwitchMenu)
    requires
        i < SWITCH_MENUS_COUNT,
    ensures
        m == switch_menu_at(i as int),
{
    if i == 0 {
        SwitchMenu::Highs
    } else if i == 1 {
        SwitchMenu::Fruits
    } else if i == 2 {
        SwitchMenu::Speed
    } else if i == 3 {
        SwitchMenu::Run
    } else if i == 4 {
        SwitchMenu::Parameters
    } else {
        SwitchMenu::Doc
    }
}

/// The label of the button of the option at position `i` of the switcher.
pub open spec fn switch_menu_label(i: int) -> Seq<char> {
    if i == 0 {
        "Highs💯"@
    } else if i == 1 {
        "Fruit"@
    } else if i == 2 {
        "Speed"@
    } else if i == 3 {
        "Run"@
    } else if i == 4 {
        "Edit⚙️"@
    } else {
        "Docℹ️"@
    }
}

/// The button of each option of the switcher, not selected.
pub fn switch_menu_button(i: usize) -> (b: Button)
    requires
        i < SWITCH_MENUS_COUNT,
    ensures
        b.name@ == switch_menu_label(i as int),
        !b.selected,
{
    if i == 0 {
        Button::new("Highs💯")
    } else if i == 1 {
        Button::new("Fruit")
    } else if i == 2 {
        Button::new("Speed")
    } else if i == 3 {
        Button::new("Run")
    } else if i == 4 {
        Button::new("Edit⚙️")
    } else {
        Button::new("Docℹ️")
    }
}

/// The buttons of the switcher, the one of `selected` being the only one
/// marked as selected.
pub fn switch_buttons(selected: SwitchMenu) -> (v: Vec<Button>)
    ensures
        v.len() == SWITCH_MENUS_COUNT,
        forall|i: int| 0 <= i < SWITCH_MENUS_COUNT ==> #[trigger] v[i].selected == (switch_menu_at(i) == selected),
        forall|i: int| 0 <= i < SWITCH_MENUS_COUNT ==> #[trigger] v[i].name@ == switch_menu_label(i),
{
    let mut v: Vec<Button> = Vec::new();
    let mut i: usize = 0;
    while i < SWITCH_MENUS_COUNT
        invariant
            i <= SWITCH_MENUS_COUNT,
            v.len() == i,
            forall|j: int| 0 <= j < i ==> #[trigger] v[j].selected == (switch_menu_at(j) == selected),
            forall|j: int| 0 <= j < i ==> #[trigger] v[j].name@ == switch_menu_label(j),
        decreases SWITCH_MENUS_COUNT - i,
    {
        let mut b = switch_menu_button(i);
        let m = switch_menu_option(i);
        b.selected(m == selected);
        v.push(b);
        i = i + 1;
    }
    v
}

} // verus!
