use vstd::prelude::*;

verus! {

/// The focusable controls of the console interface, in tab order.
#[derive(Debug, Clone, Copy, PartialEq, Eq, Structural)]
pub enum MenuActive {
    Assemble,
    File,
    Load,
    Run,
    Reset,
    Steps,
    Break,
    Watch,
}

/// Place of a control in the tab order.
pub open spec fn position(m: MenuActive) -> int {
    match m {
        MenuActive::Assemble => 0,
        MenuActive::File => 1,
        MenuActive::Load => 2,
        MenuActive::Run => 3,
        MenuActive::Reset => 4,
        MenuActive::Steps => 5,
        MenuActive::Break => 6,
        MenuActive::Watch => 7,
    }
}

impl MenuActive {
    /// The previous control, wrapping from the first to the last.
    pub fn decr(self) -> (r: Self)
        ensures
            position(r) == (position(self) + 7) % 8,
    {
        match self {
            MenuActive::Assemble => MenuActive::Watch,
            MenuActive::File => MenuActive::Assemble,
            MenuActive::Load => MenuActive::File,
            MenuActive::Run => MenuActive::Load,
            MenuActive::Reset => MenuActive::Run,
            MenuActive::Steps => MenuActive::Reset,
            MenuActive::Break => MenuActive::Steps,
            MenuActive::Watch => MenuActive::Break,
        }
    }

    /// The next control, wrapping from the last to the first.
    pub fn incr(self) -> (r: Self)
        ensures
            position(r) == (position(self) + 1) % 8,
    {
        match self {
            MenuActive::Assemble => MenuActive::File,
            MenuActive::File => MenuActive::Load,
            MenuActive::Load => MenuActive::Run,
            MenuActive::Run => MenuActive::Reset,
            MenuActive::Reset => MenuActive::Steps,
            MenuActive::Steps => MenuActive::Break,
            MenuActive::Break => MenuActive::Watch,
            MenuActive::Watch => MenuActive::Assemble,
        }
    }
}

} // verus!
