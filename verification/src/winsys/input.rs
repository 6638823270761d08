use vstd::prelude::*;

use crate::winsys::geometry::Corner;
use crate::winsys::geometry::Edge;
use crate::winsys::geometry::Pos;
use crate::winsys::window::Window;

verus! {

/// The side or corner of a window by which it is being moved or resized.
#[derive(Debug, Copy, Clone, PartialOrd, Ord, PartialEq, Eq, Structural)]
pub enum Grip {
    Edge(Edge),
    Corner(Corner),
}

impl Grip {
    /// The grip pulls at the top of the window.
    pub open spec fn at_top(self) -> bool {
        self == Grip::Edge(Edge::Top) || self == Grip::Corner(Corner::TopLeft) || self
            == Grip::Corner(Corner::TopRight)
    }

    /// The grip pulls at the left of the window.
    pub open spec fn at_left(self) -> bool {
        self == Grip::Edge(Edge::Left) || self == Grip::Corner(Corner::TopLeft) || self
            == Grip::Corner(Corner::BottomLeft)
    }

    /// Whether the grip pulls at the top edge (the top edge itself or a top corner).
    pub fn is_top_grip(&self) -> (r: bool)
        ensures
            r == self.at_top(),
    {
        *self == Grip::Edge(Edge::Top) || *self == Grip::Corner(Corner::TopLeft) || *self
            == Grip::Corner(Corner::TopRight)
    }

    /// Whether the grip pulls at the left edge (the left edge itself or a left corner).
    pub fn is_left_grip(&self) -> (r: bool)
        ensures
            r == self.at_left(),
    {
        *self == Grip::Edge(Edge::Left) || *self == Grip::Corner(Corner::TopLeft) || *self
            == Grip::Corner(Corner::BottomLeft)
    }
}

/// A keyboard modifier, ordered as its bit in a modifier mask.
#[derive(Debug, PartialEq, Eq, Hash, Clone, Copy, PartialOrd, Ord, Structural)]
pub enum Modifier {
    Ctrl,
    Shift,
    Alt,
    AltGr,
    Super,
    NumLock,
    ScrollLock,
}

/// The bit of each modifier in a modifier mask.
pub open spec fn modifier_bit(m: Modifier) -> u8 {
    match m {
        Modifier::Ctrl => 1,
        Modifier::Shift => 2,
        Modifier::Alt => 4,
        Modifier::AltGr => 8,
        Modifier::Super => 16,
        Modifier::NumLock => 32,
        Modifier::ScrollLock => 64,
    }
}

/// Why a name could not be read as an input.
#[derive(Debug, Copy, Clone, PartialEq, Eq, Structural)]
pub enum InputError {
    UnresolvedModifier,
    UnresolvedButton,
}

/// Whether `s` spells out exactly `lit`.
pub fn str_is(s: &str, lit: &str) -> (r: bool)
    ensures
        r == (s@ == lit@),
{
    let n: usize = s.unicode_len();
    let m: usize = lit.unicode_len();
    if n != m {
        return false;
    }
    let mut i: usize = 0;
    while i < n
        invariant
            n == s@.len(),
            m == lit@.len(),
            n == m,
            i <= n,
            forall|k: int| 0 <= k < i ==> s@[k] == lit@[k],
        decreases n - i,
    {
        if s.get_char(i) != lit.get_char(i) {
            return false;
        }
        i = i + 1;
    }
    assert(s@ =~= lit@);
    true
}

impl Modifier {
    /// The bit of the modifier in a modifier mask.
    pub fn mask(&self) -> (r: u8)
        ensures
            r == modifier_bit(*self),
    {
        match self {
            Modifier::Ctrl => 1,
            Modifier::Shift => 2,
            Modifier::Alt => 4,
            Modifier::AltGr => 8,
            Modifier::Super => 16,
            Modifier::NumLock => 32,
            Modifier::ScrollLock => 64,
        }
    }
}

/// The modifier that a short name stands for.
pub open spec fn modifier_named(val: Seq<char>) -> Result<Modifier, InputError> {
    if val == "C"@ {
        Ok(Modifier::Ctrl)
    } else if val == "A"@ {
        Ok(Modifier::Alt)
    } else if val == "S"@ {
        Ok(Modifier::Shift)
    } else if val == "M"@ {
        Ok(Modifier::Super)
    } else if val == "AltGr"@ {
        Ok(Modifier::Alt)
    } else if val == "Num"@ {
        Ok(Modifier::NumLock)
    } else if val == "Scroll"@ {
        Ok(Modifier::ScrollLock)
    } else {
        Err(InputError::UnresolvedModifier)
    }
}

impl<'a> TryFrom<&'a str> for Modifier {
    type Error = InputError;

    /// The modifier that a short name stands for: C, A, S, M, AltGr (read as Alt), Num, Scroll.
    fn try_from(val: &'a str) -> (r: Result<Modifier, InputError>) {
        if str_is(val, "C") {
            Ok(Modifier::Ctrl)
        } else if str_is(val, "A") {
            Ok(Modifier::Alt)
        } else if str_is(val, "S") {
            Ok(Modifier::Shift)
        } else if str_is(val, "M") {
            Ok(Modifier::Super)
        } else if str_is(val, "AltGr") {
            Ok(Modifier::Alt)
        } else if str_is(val, "Num") {
            Ok(Modifier::NumLock)
        } else if str_is(val, "Scroll") {
            Ok(Modifier::ScrollLock)
        } else {
            Err(InputError::UnresolvedModifier)
        }
    }
}

impl<'a> vstd::std_specs::convert::TryFromSpecImpl<&'a str> for Modifier {
    open spec fn obeys_try_from_spec() -> bool {
        true
    }

    open spec fn try_from_spec(val: &'a str) -> Result<Modifier, InputError> {
        modifier_named(val@)
    }
}

/// A mouse button.
#[derive(Debug, PartialEq, Eq, Hash, Clone, Copy, Structural)]
pub enum Button {
    Left,
    Middle,
    Right,
    ScrollUp,
    ScrollDown,
    Backward,
    Forward,
}

/// The number by which a mouse button is known.
pub open spec fn button_code(button: Button) -> u8 {
    match button {
        Button::Left => 1,
        Button::Middle => 2,
        Button::Right => 3,
        Button::ScrollUp => 4,
        Button::ScrollDown => 5,
        Button::Backward => 8,
        Button::Forward => 9,
    }
}

/// The mouse button known by number `val`.
pub open spec fn button_coded(val: u8) -> Result<Button, InputError> {
    if val == 1 {
        Ok(Button::Left)
    } else if val == 2 {
        Ok(Button::Middle)
    } else if val == 3 {
        Ok(Button::Right)
    } else if val == 4 {
        Ok(Button::ScrollUp)
    } else if val == 5 {
        Ok(Button::ScrollDown)
    } else if val == 8 {
        Ok(Button::Backward)
    } else if val == 9 {
        Ok(Button::Forward)
    } else {
        Err(InputError::UnresolvedButton)
    }
}

impl From<Button> for u8 {
    /// The number by which the button is known.
    fn from(button: Button) -> (r: u8) {
        match button {
            Button::Left => 1,
            Button::Middle => 2,
            Button::Right => 3,
            Button::ScrollUp => 4,
            Button::ScrollDown => 5,
            Button::Backward => 8,
            Button::Forward => 9,
        }
    }
}

impl vstd::std_specs::convert::FromSpecImpl<Button> for u8 {
    open spec fn obeys_from_spec() -> bool {
        true
    }

    open spec fn from_spec(button: Button) -> u8 {
        button_code(button)
    }
}

impl TryFrom<u8> for Button {
    type Error = InputError;

    /// The button known by number `val`: 1 to 5, 8 or 9.
    fn try_from(val: u8) -> (r: Result<Button, InputError>) {
        match val {
            1 => Ok(Button::Left),
            2 => Ok(Button::Middle),
            3 => Ok(Button::Right),
            4 => Ok(Button::ScrollUp),
            5 => Ok(Button::ScrollDown),
            8 => Ok(Button::Backward),
            9 => Ok(Button::Forward),
            _ => Err(InputError::UnresolvedButton),
        }
    }
}

impl vstd::std_specs::convert::TryFromSpecImpl<u8> for Button {
    open spec fn obeys_try_from_spec() -> bool {
        true
    }

    open spec fn try_from_spec(val: u8) -> Result<Button, InputError> {
        button_coded(val)
    }
}

/// A button's number gives back the button.
pub proof fn law_button_code_round_trip(button: Button)
    ensures
        button_coded(button_code(button)) == Ok::<Button, InputError>(button),
{
}

/// What happened to a mouse button.
#[derive(Debug, Clone, Copy, Hash, PartialEq, Eq, Structural)]
pub enum MouseEventKind {
    Press,
    Release,
    Motion,
}

/// Where a mouse binding applies.
#[derive(Debug, Clone, Copy, Hash, PartialEq, Eq, Structural)]
pub enum MouseInputTarget {
    Global,
    Root,
    Client,
}

/// A mouse button with the modifiers held down along with it (each once, in modifier order).
#[derive(Debug, Clone, PartialEq, Eq)]
pub struct MouseInput {
    pub target: MouseInputTarget,
    pub button: Button,
    pub modifiers: Vec<Modifier>,
}

/// A mouse event: what happened, with which input, over which window, where.
#[derive(Debug, Clone, PartialEq, Eq)]
pub struct MouseEvent {
    pub kind: MouseEventKind,
    pub input: MouseInput,
    pub window: Option<Window>,
    pub root_rpos: Pos,
}

/// A mouse binding: a button and the modifiers it takes, in modifier order.
#[derive(Debug, Clone, PartialEq, Eq)]
pub struct MouseShortcut {
    pub button: Button,
    pub modifiers: Vec<Modifier>,
}

/// A key binding as the X server knows it: a modifier mask and a key code.
#[derive(Debug, Clone, Copy, PartialEq, Eq, Hash, Structural)]
pub struct KeyCode {
    pub mask: u16,
    pub code: u8,
}

/// A key.
#[derive(Debug, PartialEq, Eq, Hash, Clone, Copy, Structural)]
pub enum Key {
    Any,
    Backspace,
    Tab,
    Clear,
    Return,
    Shift,
    Control,
    Alt,
    Super,
    Menu,
    Pause,
    CapsLock,
    Escape,
    Space,
    ExclamationMark,
    QuotationMark,
    QuestionMark,
    NumberSign,
    DollarSign,
    PercentSign,
    AtSign,
    Ampersand,
    Apostrophe,
    LeftParenthesis,
    RightParenthesis,
    LeftBracket,
    RightBracket,
    LeftBrace,
    RightBrace,
    Underscore,
    Grave,
    Bar,
    Tilde,
    QuoteLeft,
    Asterisk,
    Plus,
    Comma,
    Minus,
    Period,
    Slash,
    BackSlash,
    Colon,
    SemiColon,
    Less,
    Equal,
    Greater,
    PageUp,
    PageDown,
    End,
    Home,
    Left,
    Up,
    Right,
    Down,
    Select,
    Print,
    Execute,
    PrintScreen,
    Insert,
    Delete,
    Help,
    Zero,
    One,
    Two,
    Three,
    Four,
    Five,
    Six,
    Seven,
    Eight,
    Nine,
    A,
    B,
    C,
    D,
    E,
    F,
    G,
    H,
    I,
    J,
    K,
    L,
    M,
    N,
    O,
    P,
    Q,
    R,
    S,
    T,
    U,
    V,
    W,
    X,
    Y,
    Z,
    NumPad0,
    NumPad1,
    NumPad2,
    NumPad3,
    NumPad4,
    NumPad5,
    NumPad6,
    NumPad7,
    NumPad8,
    NumPad9,
    Multiply,
    Add,
    Seperator,
    Subtract,
    Decimal,
    Divide,
    F1,
    F2,
    F3,
    F4,
    F5,
    F6,
    F7,
    F8,
    F9,
    F10,
    F11,
    F12,
    F13,
    F14,
    F15,
    F16,
    F17,
    F18,
    F19,
    F20,
    F21,
    F22,
    F23,
    F24,
    Numlock,
    ScrollLock,
    LeftShift,
    RightShift,
    LeftControl,
    RightContol,
    LeftAlt,
    RightAlt,
    LeftSuper,
    RightSuper,
    BrowserBack,
    BrowserForward,
    BrowserRefresh,
    BrowserStop,
    BrowserSearch,
    BrowserFavorites,
    BrowserHome,
    VolumeMute,
    VolumeDown,
    VolumeUp,
    NextTrack,
    PreviousTrack,
    StopMedia,
    PlayPause,
    LaunchMail,
    SelectMedia,
    LaunchAppA,
    LaunchAppB,
    LaunchAppC,
    LaunchAppD,
    LaunchAppE,
    LaunchAppF,
    LaunchApp0,
    LaunchApp1,
    LaunchApp2,
    LaunchApp3,
    LaunchApp4,
    LaunchApp5,
    LaunchApp6,
    LaunchApp7,
    LaunchApp8,
    LaunchApp9,
}

/// A key with the modifiers held down along with it (each once, in modifier order).
#[derive(Debug, Clone, PartialEq, Eq)]
pub struct KeyInput {
    pub key: Key,
    pub modifiers: Vec<Modifier>,
}

/// A key event over a window.
#[derive(Debug, Clone, PartialEq, Eq)]
pub struct KeyEvent {
    pub input: KeyInput,
    pub window: Option<Window>,
}

} // verus!
