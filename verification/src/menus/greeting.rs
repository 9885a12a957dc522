//! The greeting screens: which one shows for an option of the greeting
//! switcher.
use vstd::prelude::*;

verus! {

/// Option that can be selected from the greeting screen, using a lateral
/// switcher.
#[derive(Debug, Clone, Copy, PartialEq, Eq, Structural)]
pub enum SwitchMenu {
    Main,
    Fruits,
    Speed,
    Run,
    Parameters,
    Help,
}

/// The screens of the greeting menu.
#[derive(Debug, Clone, Copy, PartialEq, Eq, Structural)]
pub enum GreetingSimpleDisplay {
    Velocity,
    Help,
    MainMenu,
}

/// The screen shown for an option: the speed screen for Speed, the help
/// screen for Help, the main screen for the others.
pub open spec fn display_for(menu: SwitchMenu) -> GreetingSimpleDisplay {
    match menu {
        SwitchMenu::Speed => GreetingSimpleDisplay::Velocity,
        SwitchMenu::Help => GreetingSimpleDisplay::Help,
        SwitchMenu::Fruits | SwitchMenu::Parameters | SwitchMenu::Run | SwitchMenu::Main => GreetingSimpleDisplay::MainMenu,
    }
}

impl From<SwitchMenu> for GreetingSimpleDisplay {
    fn from(menu: SwitchMenu) -> (d: GreetingSimpleDisplay) {
        match menu {
            SwitchMenu::Speed => GreetingSimpleDisplay::Velocity,
            SwitchMenu::Help => GreetingSimpleDisplay::Help,
            SwitchMenu::Fruits | SwitchMenu::Parameters | SwitchMenu::Run | SwitchMenu::Main => {
                GreetingSimpleDisplay::MainMenu
            },
        }
    }
}

impl vstd::std_specs::convert::FromSpecImpl<SwitchMenu> for GreetingSimpleDisplay {
    open spec fn obeys_from_spec() -> bool {
        true
    }

    open spec fn from_spec(menu: SwitchMenu) -> GreetingSimpleDisplay {
        display_for(menu)
    }
}

/// The screen shown for an option.
pub fn greeting_display(menu: SwitchMenu) -> (d: GreetingSimpleDisplay)
    ensures
        d == display_for(menu),
{
    GreetingSimpleDisplay::from(menu)
}

} // verus!
