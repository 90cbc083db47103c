//! Key codes: the USB HID usage codes mapped into the first private
//! unicode plane, and the user keys that no handler interprets by default.
use vstd::prelude::*;
use vstd::string::StringExecFns;

verus! {

/// USB key codes live at `UNICODE_BELOW_256 + usb_code`; the output
/// subtracts `UNICODE_BELOW_256` to obtain the byte that goes into a report.
pub const UNICODE_BELOW_256: u32 = 0x100000;

/// USB key codes mapped into the first private region of unicode.
#[derive(Copy, Clone, PartialEq, Eq, Structural, PartialOrd, Ord, Debug, Hash)]
pub enum KeyCode {
    No,
    ErrorRollOver,
    PostFail,
    ErrorUndefined,
    A,
    B,
    C,
    D,
    E,
    F,
    G,
    H,
    I,
    J,
    K,
    L,
    M,
    N,
    O,
    P,
    Q,
    R,
    S,
    T,
    U,
    V,
    W,
    X,
    Y,
    Z,
    Kb1,
    Kb2,
    Kb3,
    Kb4,
    Kb5,
    Kb6,
    Kb7,
    Kb8,
    Kb9,
    Kb0,
    Enter,
    Escape,
    BSpace,
    Tab,
    Space,
    Minus,
    Equal,
    LBracket,
    RBracket,
    BSlash,
    NonUsHash,
    SColon,
    Quote,
    Grave,
    Comma,
    Dot,
    Slash,
    CapsLock,
    F1,
    F2,
    F3,
    F4,
    F5,
    F6,
    F7,
    F8,
    F9,
    F10,
    F11,
    F12,
    PScreen,
    ScrollLock,
    Pause,
    Insert,
    Home,
    PgUp,
    Delete,
    End,
    PgDown,
    Right,
    Left,
    Down,
    Up,
    NumLock,
    KpSlash,
    KpAsterisk,
    KpMinus,
    KpPlus,
    KpEnter,
    Kp1,
    Kp2,
    Kp3,
    Kp4,
    Kp5,
    Kp6,
    Kp7,
    Kp8,
    Kp9,
    Kp0,
    KpDot,
    NonUsBslash,
    Application,
    Power,
    KpEqual,
    F13,
    F14,
    F15,
    F16,
    F17,
    F18,
    F19,
    F20,
    F21,
    F22,
    F23,
    F24,
    Open,
    Help,
    Props,
    Front,
    Stop,
    Again,
    Undo,
    Cut,
    Copy,
    Paste,
    Find,
    Mute,
    VolumeUp,
    VolumeDown,
    Kpcomma,
    Ro,
    Katakanahiragana,
    Yen,
    Henkan,
    Muhenkan,
    KpJpComma,
    Hangeul,
    Hanja,
    Katakana,
    Hiragana,
    Zenkakuhankaku,
    KpLeftParen,
    KpRightParen,
    LCtrl,
    LShift,
    LAlt,
    LGui,
    RCtrl,
    RShift,
    RAlt,
    RGui,
    MediaPlayPause,
    MediaStopCd,
    MediaPrevioussong,
    MediaNextsong,
    MediaEjectCd,
    MediaVolumeUp,
    MediaVolumeDown,
    MediaMUte,
    MediaWww,
    MediaBack,
    MediaForward,
    MediaStop,
    MediaFind,
    MediaScrollUp,
    MediaScrollDown,
    MediaEdit,
    MediaSleep,
    MediaCoffee,
    MediaRefresh,
    MediaCalc,
}

/// The numeric value of a key code: `UNICODE_BELOW_256` plus its USB usage code.
pub open spec fn keycode_value(k: KeyCode) -> u32 {
    match k {
        KeyCode::No => 0x100000,
        KeyCode::ErrorRollOver => 0x100001,
        KeyCode::PostFail => 0x100002,
        KeyCode::ErrorUndefined => 0x100003,
        KeyCode::A => 0x100004,
        KeyCode::B => 0x100005,
        KeyCode::C => 0x100006,
        KeyCode::D => 0x100007,
        KeyCode::E => 0x100008,
        KeyCode::F => 0x100009,
        KeyCode::G => 0x10000a,
        KeyCode::H => 0x10000b,
        KeyCode::I => 0x10000c,
        KeyCode::J => 0x10000d,
        KeyCode::K => 0x10000e,
        KeyCode::L => 0x10000f,
        KeyCode::M => 0x100010,
        KeyCode::N => 0x100011,
        KeyCode::O => 0x100012,
        KeyCode::P => 0x100013,
        KeyCode::Q => 0x100014,
        KeyCode::R => 0x100015,
        KeyCode::S => 0x100016,
        KeyCode::T => 0x100017,
        KeyCode::U => 0x100018,
        KeyCode::V => 0x100019,
        KeyCode::W => 0x10001a,
        KeyCode::X => 0x10001b,
        KeyCode::Y => 0x10001c,
        KeyCode::Z => 0x10001d,
        KeyCode::Kb1 => 0x10001e,
        KeyCode::Kb2 => 0x10001f,
        KeyCode::Kb3 => 0x100020,
        KeyCode::Kb4 => 0x100021,
        KeyCode::Kb5 => 0x100022,
        KeyCode::Kb6 => 0x100023,
        KeyCode::Kb7 => 0x100024,
        KeyCode::Kb8 => 0x100025,
        KeyCode::Kb9 => 0x100026,
        KeyCode::Kb0 => 0x100027,
        KeyCode::Enter => 0x100028,
        KeyCode::Escape => 0x100029,
        KeyCode::BSpace => 0x10002a,
        KeyCode::Tab => 0x10002b,
        KeyCode::Space => 0x10002c,
        KeyCode::Minus => 0x10002d,
        KeyCode::Equal => 0x10002e,
        KeyCode::LBracket => 0x10002f,
        KeyCode::RBracket => 0x100030,
        KeyCode::BSlash => 0x100031,
        KeyCode::NonUsHash => 0x100032,
        KeyCode::SColon => 0x100033,
        KeyCode::Quote => 0x100034,
        KeyCode::Grave => 0x100035,
        KeyCode::Comma => 0x100036,
        KeyCode::Dot => 0x100037,
        KeyCode::Slash => 0x100038,
        KeyCode::CapsLock => 0x100039,
        KeyCode::F1 => 0x10003a,
        KeyCode::F2 => 0x10003b,
        KeyCode::F3 => 0x10003c,
        KeyCode::F4 => 0x10003d,
        KeyCode::F5 => 0x10003e,
        KeyCode::F6 => 0x10003f,
        KeyCode::F7 => 0x100040,
        KeyCode::F8 => 0x100041,
        KeyCode::F9 => 0x100042,
        KeyCode::F10 => 0x100043,
        KeyCode::F11 => 0x100044,
        KeyCode::F12 => 0x100045,
        KeyCode::PScreen => 0x100046,
        KeyCode::ScrollLock => 0x100047,
        KeyCode::Pause => 0x100048,
        KeyCode::Insert => 0x100049,
        KeyCode::Home => 0x10004a,
        KeyCode::PgUp => 0x10004b,
        KeyCode::Delete => 0x10004c,
        KeyCode::End => 0x10004d,
        KeyCode::PgDown => 0x10004e,
        KeyCode::Right => 0x10004f,
        KeyCode::Left => 0x100050,
        KeyCode::Down => 0x100051,
        KeyCode::Up => 0x100052,
        KeyCode::NumLock => 0x100053,
        KeyCode::KpSlash => 0x100054,
        KeyCode::KpAsterisk => 0x100055,
        KeyCode::KpMinus => 0x100056,
        KeyCode::KpPlus => 0x100057,
        KeyCode::KpEnter => 0x100058,
        KeyCode::Kp1 => 0x100059,
        KeyCode::Kp2 => 0x10005a,
        KeyCode::Kp3 => 0x10005b,
        KeyCode::Kp4 => 0x10005c,
        KeyCode::Kp5 => 0x10005d,
        KeyCode::Kp6 => 0x10005e,
        KeyCode::Kp7 => 0x10005f,
        KeyCode::Kp8 => 0x100060,
        KeyCode::Kp9 => 0x100061,
        KeyCode::Kp0 => 0x100062,
        KeyCode::KpDot => 0x100063,
        KeyCode::NonUsBslash => 0x100064,
        KeyCode::Application => 0x100065,
        KeyCode::Power => 0x100066,
        KeyCode::KpEqual => 0x100067,
        KeyCode::F13 => 0x100068,
        KeyCode::F14 => 0x100069,
        KeyCode::F15 => 0x10006a,
        KeyCode::F16 => 0x10006b,
        KeyCode::F17 => 0x10006c,
        KeyCode::F18 => 0x10006d,
        KeyCode::F19 => 0x10006e,
        KeyCode::F20 => 0x10006f,
        KeyCode::F21 => 0x100070,
        KeyCode::F22 => 0x100071,
        KeyCode::F23 => 0x100072,
        KeyCode::F24 => 0x100073,
        KeyCode::Open => 0x100074,
        KeyCode::Help => 0x100075,
        KeyCode::Props => 0x100076,
        KeyCode::Front => 0x100077,
        KeyCode::Stop => 0x100078,
        KeyCode::Again => 0x100079,
        KeyCode::Undo => 0x10007a,
        KeyCode::Cut => 0x10007b,
        KeyCode::Copy => 0x10007c,
        KeyCode::Paste => 0x10007d,
        KeyCode::Find => 0x10007e,
        KeyCode::Mute => 0x10007f,
        KeyCode::VolumeUp => 0x100080,
        KeyCode::VolumeDown => 0x100081,
        KeyCode::Kpcomma => 0x100085,
        KeyCode::Ro => 0x100087,
        KeyCode::Katakanahiragana => 0x100088,
        KeyCode::Yen => 0x100089,
        KeyCode::Henkan => 0x10008a,
        KeyCode::Muhenkan => 0x10008b,
        KeyCode::KpJpComma => 0x10008c,
        KeyCode::Hangeul => 0x100090,
        KeyCode::Hanja => 0x100091,
        KeyCode::Katakana => 0x100092,
        KeyCode::Hiragana => 0x100093,
        KeyCode::Zenkakuhankaku => 0x100094,
        KeyCode::KpLeftParen => 0x1000b6,
        KeyCode::KpRightParen => 0x1000b7,
        KeyCode::LCtrl => 0x1000e0,
        KeyCode::LShift => 0x1000e1,
        KeyCode::LAlt => 0x1000e2,
        KeyCode::LGui => 0x1000e3,
        KeyCode::RCtrl => 0x1000e4,
        KeyCode::RShift => 0x1000e5,
        KeyCode::RAlt => 0x1000e6,
        KeyCode::RGui => 0x1000e7,
        KeyCode::MediaPlayPause => 0x1000e8,
        KeyCode::MediaStopCd => 0x1000e9,
        KeyCode::MediaPrevioussong => 0x1000ea,
        KeyCode::MediaNextsong => 0x1000eb,
        KeyCode::MediaEjectCd => 0x1000ec,
        KeyCode::MediaVolumeUp => 0x1000ed,
        KeyCode::MediaVolumeDown => 0x1000ee,
        KeyCode::MediaMUte => 0x1000ef,
        KeyCode::MediaWww => 0x1000f0,
        KeyCode::MediaBack => 0x1000f1,
        KeyCode::MediaForward => 0x1000f2,
        KeyCode::MediaStop => 0x1000f3,
        KeyCode::MediaFind => 0x1000f4,
        KeyCode::MediaScrollUp => 0x1000f5,
        KeyCode::MediaScrollDown => 0x1000f6,
        KeyCode::MediaEdit => 0x1000f7,
        KeyCode::MediaSleep => 0x1000f8,
        KeyCode::MediaCoffee => 0x1000f9,
        KeyCode::MediaRefresh => 0x1000fa,
        KeyCode::MediaCalc => 0x1000fb,
    }
}

/// The numbers that name a key code: the USB usage codes of the key codes,
/// moved into the first private region of unicode.
pub open spec fn is_keycode_value(x: u32) -> bool {
    ||| 0x100000 <= x <= 0x100081
    ||| x == 0x100085
    ||| 0x100087 <= x <= 0x10008c
    ||| 0x100090 <= x <= 0x100094
    ||| 0x1000b6 <= x <= 0x1000b7
    ||| 0x1000e0 <= x <= 0x1000fb
}

/// Every key code's value lies in one of the blocks of `is_keycode_value`.
pub proof fn lemma_keycode_value_in_blocks(k: KeyCode)
    ensures
        is_keycode_value(keycode_value(k)),
        UNICODE_BELOW_256 <= keycode_value(k) <= UNICODE_BELOW_256 + 0xfb,
{
}

/// Two key codes with the same value are the same key code.
pub proof fn lemma_keycode_value_injective(a: KeyCode, b: KeyCode)
    requires
        keycode_value(a) == keycode_value(b),
    ensures
        a == b,
{
}

/// The key code whose value is `x`, if there is one.
pub fn keycode_from_u32(x: u32) -> (r: Option<KeyCode>)
    ensures
        r is Some <==> is_keycode_value(x),
        r matches Some(k) ==> keycode_value(k) == x,
{
    match x {
        0x100000 => Some(KeyCode::No),
        0x100001 => Some(KeyCode::ErrorRollOver),
        0x100002 => Some(KeyCode::PostFail),
        0x100003 => Some(KeyCode::ErrorUndefined),
        0x100004 => Some(KeyCode::A),
        0x100005 => Some(KeyCode::B),
        0x100006 => Some(KeyCode::C),
        0x100007 => Some(KeyCode::D),
        0x100008 => Some(KeyCode::E),
        0x100009 => Some(KeyCode::F),
        0x10000a => Some(KeyCode::G),
        0x10000b => Some(KeyCode::H),
        0x10000c => Some(KeyCode::I),
        0x10000d => Some(KeyCode::J),
        0x10000e => Some(KeyCode::K),
        0x10000f => Some(KeyCode::L),
        0x100010 => Some(KeyCode::M),
        0x100011 => Some(KeyCode::N),
        0x100012 => Some(KeyCode::O),
        0x100013 => Some(KeyCode::P),
        0x100014 => Some(KeyCode::Q),
        0x100015 => Some(KeyCode::R),
        0x100016 => Some(KeyCode::S),
        0x100017 => Some(KeyCode::T),
        0x100018 => Some(KeyCode::U),
        0x100019 => Some(KeyCode::V),
        0x10001a => Some(KeyCode::W),
        0x10001b => Some(KeyCode::X),
        0x10001c => Some(KeyCode::Y),
        0x10001d => Some(KeyCode::Z),
        0x10001e => Some(KeyCode::Kb1),
        0x10001f => Some(KeyCode::Kb2),
        0x100020 => Some(KeyCode::Kb3),
        0x100021 => Some(KeyCode::Kb4),
        0x100022 => Some(KeyCode::Kb5),
        0x100023 => Some(KeyCode::Kb6),
        0x100024 => Some(KeyCode::Kb7),
        0x100025 => Some(KeyCode::Kb8),
        0x100026 => Some(KeyCode::Kb9),
        0x100027 => Some(KeyCode::Kb0),
        0x100028 => Some(KeyCode::Enter),
        0x100029 => Some(KeyCode::Escape),
        0x10002a => Some(KeyCode::BSpace),
        0x10002b => Some(KeyCode::Tab),
        0x10002c => Some(KeyCode::Space),
        0x10002d => Some(KeyCode::Minus),
        0x10002e => Some(KeyCode::Equal),
        0x10002f => Some(KeyCode::LBracket),
        0x100030 => Some(KeyCode::RBracket),
        0x100031 => Some(KeyCode::BSlash),
        0x100032 => Some(KeyCode::NonUsHash),
        0x100033 => Some(KeyCode::SColon),
        0x100034 => Some(KeyCode::Quote),
        0x100035 => Some(KeyCode::Grave),
        0x100036 => Some(KeyCode::Comma),
        0x100037 => Some(KeyCode::Dot),
        0x100038 => Some(KeyCode::Slash),
        0x100039 => Some(KeyCode::CapsLock),
        0x10003a => Some(KeyCode::F1),
        0x10003b => Some(KeyCode::F2),
        0x10003c => Some(KeyCode::F3),
        0x10003d => Some(KeyCode::F4),
        0x10003e => Some(KeyCode::F5),
        0x10003f => Some(KeyCode::F6),
        0x100040 => Some(KeyCode::F7),
        0x100041 => Some(KeyCode::F8),
        0x100042 => Some(KeyCode::F9),
        0x100043 => Some(KeyCode::F10),
        0x100044 => Some(KeyCode::F11),
        0x100045 => Some(KeyCode::F12),
        0x100046 => Some(KeyCode::PScreen),
        0x100047 => Some(KeyCode::ScrollLock),
        0x100048 => Some(KeyCode::Pause),
        0x100049 => Some(KeyCode::Insert),
        0x10004a => Some(KeyCode::Home),
        0x10004b => Some(KeyCode::PgUp),
        0x10004c => Some(KeyCode::Delete),
        0x10004d => Some(KeyCode::End),
        0x10004e => Some(KeyCode::PgDown),
        0x10004f => Some(KeyCode::Right),
        0x100050 => Some(KeyCode::Left),
        0x100051 => Some(KeyCode::Down),
        0x100052 => Some(KeyCode::Up),
        0x100053 => Some(KeyCode::NumLock),
        0x100054 => Some(KeyCode::KpSlash),
        0x100055 => Some(KeyCode::KpAsterisk),
        0x100056 => Some(KeyCode::KpMinus),
        0x100057 => Some(KeyCode::KpPlus),
        0x100058 => Some(KeyCode::KpEnter),
        0x100059 => Some(KeyCode::Kp1),
        0x10005a => Some(KeyCode::Kp2),
        0x10005b => Some(KeyCode::Kp3),
        0x10005c => Some(KeyCode::Kp4),
        0x10005d => Some(KeyCode::Kp5),
        0x10005e => Some(KeyCode::Kp6),
        0x10005f => Some(KeyCode::Kp7),
        0x100060 => Some(KeyCode::Kp8),
        0x100061 => Some(KeyCode::Kp9),
        0x100062 => Some(KeyCode::Kp0),
        0x100063 => Some(KeyCode::KpDot),
        0x100064 => Some(KeyCode::NonUsBslash),
        0x100065 => Some(KeyCode::Application),
        0x100066 => Some(KeyCode::Power),
        0x100067 => Some(KeyCode::KpEqual),
        0x100068 => Some(KeyCode::F13),
        0x100069 => Some(KeyCode::F14),
        0x10006a => Some(KeyCode::F15),
        0x10006b => Some(KeyCode::F16),
        0x10006c => Some(KeyCode::F17),
        0x10006d => Some(KeyCode::F18),
        0x10006e => Some(KeyCode::F19),
        0x10006f => Some(KeyCode::F20),
        0x100070 => Some(KeyCode::F21),
        0x100071 => Some(KeyCode::F22),
        0x100072 => Some(KeyCode::F23),
        0x100073 => Some(KeyCode::F24),
        0x100074 => Some(KeyCode::Open),
        0x100075 => Some(KeyCode::Help),
        0x100076 => Some(KeyCode::Props),
        0x100077 => Some(KeyCode::Front),
        0x100078 => Some(KeyCode::Stop),
        0x100079 => Some(KeyCode::Again),
        0x10007a => Some(KeyCode::Undo),
        0x10007b => Some(KeyCode::Cut),
        0x10007c => Some(KeyCode::Copy),
        0x10007d => Some(KeyCode::Paste),
        0x10007e => Some(KeyCode::Find),
        0x10007f => Some(KeyCode::Mute),
        0x100080 => Some(KeyCode::VolumeUp),
        0x100081 => Some(KeyCode::VolumeDown),
        0x100085 => Some(KeyCode::Kpcomma),
        0x100087 => Some(KeyCode::Ro),
        0x100088 => Some(KeyCode::Katakanahiragana),
        0x100089 => Some(KeyCode::Yen),
        0x10008a => Some(KeyCode::Henkan),
        0x10008b => Some(KeyCode::Muhenkan),
        0x10008c => Some(KeyCode::KpJpComma),
        0x100090 => Some(KeyCode::Hangeul),
        0x100091 => Some(KeyCode::Hanja),
        0x100092 => Some(KeyCode::Katakana),
        0x100093 => Some(KeyCode::Hiragana),
        0x100094 => Some(KeyCode::Zenkakuhankaku),
        0x1000b6 => Some(KeyCode::KpLeftParen),
        0x1000b7 => Some(KeyCode::KpRightParen),
        0x1000e0 => Some(KeyCode::LCtrl),
        0x1000e1 => Some(KeyCode::LShift),
        0x1000e2 => Some(KeyCode::LAlt),
        0x1000e3 => Some(KeyCode::LGui),
        0x1000e4 => Some(KeyCode::RCtrl),
        0x1000e5 => Some(KeyCode::RShift),
        0x1000e6 => Some(KeyCode::RAlt),
        0x1000e7 => Some(KeyCode::RGui),
        0x1000e8 => Some(KeyCode::MediaPlayPause),
        0x1000e9 => Some(KeyCode::MediaStopCd),
        0x1000ea => Some(KeyCode::MediaPrevioussong),
        0x1000eb => Some(KeyCode::MediaNextsong),
        0x1000ec => Some(KeyCode::MediaEjectCd),
        0x1000ed => Some(KeyCode::MediaVolumeUp),
        0x1000ee => Some(KeyCode::MediaVolumeDown),
        0x1000ef => Some(KeyCode::MediaMUte),
        0x1000f0 => Some(KeyCode::MediaWww),
        0x1000f1 => Some(KeyCode::MediaBack),
        0x1000f2 => Some(KeyCode::MediaForward),
        0x1000f3 => Some(KeyCode::MediaStop),
        0x1000f4 => Some(KeyCode::MediaFind),
        0x1000f5 => Some(KeyCode::MediaScrollUp),
        0x1000f6 => Some(KeyCode::MediaScrollDown),
        0x1000f7 => Some(KeyCode::MediaEdit),
        0x1000f8 => Some(KeyCode::MediaSleep),
        0x1000f9 => Some(KeyCode::MediaCoffee),
        0x1000fa => Some(KeyCode::MediaRefresh),
        0x1000fb => Some(KeyCode::MediaCalc),
        _ => None,
    }
}

impl KeyCode {
    /// Whether this is one of the eight modifier keys (LCtrl ..= RGui).
    pub open spec fn spec_is_modifier(self) -> bool {
        keycode_value(KeyCode::LCtrl) <= keycode_value(self) <= keycode_value(KeyCode::RGui)
    }

    /// Needed to build USB reports: true exactly for LCtrl ..= RGui.
    pub fn is_modifier(self) -> (r: bool)
        ensures
            r == self.spec_is_modifier(),
    {
        let v = self.to_u32();
        KeyCode::LCtrl.to_u32() <= v && v <= KeyCode::RGui.to_u32()
    }

    /// Needed to build USB reports: the modifier byte bit of this key
    /// (bit 0 for LCtrl up to bit 7 for RGui), 0 for other keys.
    pub fn as_modifier_bit(self) -> (r: u8)
        ensures
            self.spec_is_modifier() ==> r == (1u8 << ((keycode_value(self) - 0x1000e0) as u8)),
            !self.spec_is_modifier() ==> r == 0,
    {
        if self.is_modifier() {
            let shift = self.to_u8() - KeyCode::LCtrl.to_u8();
            1u8 << shift
        } else {
            0
        }
    }

    /// The USB usage code of this key: its value minus `UNICODE_BELOW_256`.
    pub fn to_u8(self) -> (r: u8)
        ensures
            r == keycode_value(self) - UNICODE_BELOW_256,
    {
        proof {
            lemma_keycode_value_in_blocks(self);
        }
        let u = self.to_u32() - UNICODE_BELOW_256;
        u as u8
    }

    /// The value of this key code.
    pub fn to_u32(self) -> (r: u32)
        ensures
            r == keycode_value(self),
    {
        match self {
            KeyCode::No => 0x100000,
            KeyCode::ErrorRollOver => 0x100001,
            KeyCode::PostFail => 0x100002,
            KeyCode::ErrorUndefined => 0x100003,
            KeyCode::A => 0x100004,
            KeyCode::B => 0x100005,
            KeyCode::C => 0x100006,
            KeyCode::D => 0x100007,
            KeyCode::E => 0x100008,
            KeyCode::F => 0x100009,
            KeyCode::G => 0x10000a,
            KeyCode::H => 0x10000b,
            KeyCode::I => 0x10000c,
            KeyCode::J => 0x10000d,
            KeyCode::K => 0x10000e,
            KeyCode::L => 0x10000f,
            KeyCode::M => 0x100010,
            KeyCode::N => 0x100011,
            KeyCode::O => 0x100012,
            KeyCode::P => 0x100013,
            KeyCode::Q => 0x100014,
            KeyCode::R => 0x100015,
            KeyCode::S => 0x100016,
            KeyCode::T => 0x100017,
            KeyCode::U => 0x100018,
            KeyCode::V => 0x100019,
            KeyCode::W => 0x10001a,
            KeyCode::X => 0x10001b,
            KeyCode::Y => 0x10001c,
            KeyCode::Z => 0x10001d,
            KeyCode::Kb1 => 0x10001e,
            KeyCode::Kb2 => 0x10001f,
            KeyCode::Kb3 => 0x100020,
            KeyCode::Kb4 => 0x100021,
            KeyCode::Kb5 => 0x100022,
            KeyCode::Kb6 => 0x100023,
            KeyCode::Kb7 => 0x100024,
            KeyCode::Kb8 => 0x100025,
            KeyCode::Kb9 => 0x100026,
            KeyCode::Kb0 => 0x100027,
            KeyCode::Enter => 0x100028,
            KeyCode::Escape => 0x100029,
            KeyCode::BSpace => 0x10002a,
            KeyCode::Tab => 0x10002b,
            KeyCode::Space => 0x10002c,
            KeyCode::Minus => 0x10002d,
            KeyCode::Equal => 0x10002e,
            KeyCode::LBracket => 0x10002f,
            KeyCode::RBracket => 0x100030,
            KeyCode::BSlash => 0x100031,
            KeyCode::NonUsHash => 0x100032,
            KeyCode::SColon => 0x100033,
            KeyCode::Quote => 0x100034,
            KeyCode::Grave => 0x100035,
            KeyCode::Comma => 0x100036,
            KeyCode::Dot => 0x100037,
            KeyCode::Slash => 0x100038,
            KeyCode::CapsLock => 0x100039,
            KeyCode::F1 => 0x10003a,
            KeyCode::F2 => 0x10003b,
            KeyCode::F3 => 0x10003c,
            KeyCode::F4 => 0x10003d,
            KeyCode::F5 => 0x10003e,
            KeyCode::F6 => 0x10003f,
            KeyCode::F7 => 0x100040,
            KeyCode::F8 => 0x100041,
            KeyCode::F9 => 0x100042,
            KeyCode::F10 => 0x100043,
            KeyCode::F11 => 0x100044,
            KeyCode::F12 => 0x100045,
            KeyCode::PScreen => 0x100046,
            KeyCode::ScrollLock => 0x100047,
            KeyCode::Pause => 0x100048,
            KeyCode::Insert => 0x100049,
            KeyCode::Home => 0x10004a,
            KeyCode::PgUp => 0x10004b,
            KeyCode::Delete => 0x10004c,
            KeyCode::End => 0x10004d,
            KeyCode::PgDown => 0x10004e,
            KeyCode::Right => 0x10004f,
            KeyCode::Left => 0x100050,
            KeyCode::Down => 0x100051,
            KeyCode::Up => 0x100052,
            KeyCode::NumLock => 0x100053,
            KeyCode::KpSlash => 0x100054,
            KeyCode::KpAsterisk => 0x100055,
            KeyCode::KpMinus => 0x100056,
            KeyCode::KpPlus => 0x100057,
            KeyCode::KpEnter => 0x100058,
            KeyCode::Kp1 => 0x100059,
            KeyCode::Kp2 => 0x10005a,
            KeyCode::Kp3 => 0x10005b,
            KeyCode::Kp4 => 0x10005c,
            KeyCode::Kp5 => 0x10005d,
            KeyCode::Kp6 => 0x10005e,
            KeyCode::Kp7 => 0x10005f,
            KeyCode::Kp8 => 0x100060,
            KeyCode::Kp9 => 0x100061,
            KeyCode::Kp0 => 0x100062,
            KeyCode::KpDot => 0x100063,
            KeyCode::NonUsBslash => 0x100064,
            KeyCode::Application => 0x100065,
            KeyCode::Power => 0x100066,
            KeyCode::KpEqual => 0x100067,
            KeyCode::F13 => 0x100068,
            KeyCode::F14 => 0x100069,
            KeyCode::F15 => 0x10006a,
            KeyCode::F16 => 0x10006b,
            KeyCode::F17 => 0x10006c,
            KeyCode::F18 => 0x10006d,
            KeyCode::F19 => 0x10006e,
            KeyCode::F20 => 0x10006f,
            KeyCode::F21 => 0x100070,
            KeyCode::F22 => 0x100071,
            KeyCode::F23 => 0x100072,
            KeyCode::F24 => 0x100073,
            KeyCode::Open => 0x100074,
            KeyCode::Help => 0x100075,
            KeyCode::Props => 0x100076,
            KeyCode::Front => 0x100077,
            KeyCode::Stop => 0x100078,
            KeyCode::Again => 0x100079,
            KeyCode::Undo => 0x10007a,
            KeyCode::Cut => 0x10007b,
            KeyCode::Copy => 0x10007c,
            KeyCode::Paste => 0x10007d,
            KeyCode::Find => 0x10007e,
            KeyCode::Mute => 0x10007f,
            KeyCode::VolumeUp => 0x100080,
            KeyCode::VolumeDown => 0x100081,
            KeyCode::Kpcomma => 0x100085,
            KeyCode::Ro => 0x100087,
            KeyCode::Katakanahiragana => 0x100088,
            KeyCode::Yen => 0x100089,
            KeyCode::Henkan => 0x10008a,
            KeyCode::Muhenkan => 0x10008b,
            KeyCode::KpJpComma => 0x10008c,
            KeyCode::Hangeul => 0x100090,
            KeyCode::Hanja => 0x100091,
            KeyCode::Katakana => 0x100092,
            KeyCode::Hiragana => 0x100093,
            KeyCode::Zenkakuhankaku => 0x100094,
            KeyCode::KpLeftParen => 0x1000b6,
            KeyCode::KpRightParen => 0x1000b7,
            KeyCode::LCtrl => 0x1000e0,
            KeyCode::LShift => 0x1000e1,
            KeyCode::LAlt => 0x1000e2,
            KeyCode::LGui => 0x1000e3,
            KeyCode::RCtrl => 0x1000e4,
            KeyCode::RShift => 0x1000e5,
            KeyCode::RAlt => 0x1000e6,
            KeyCode::RGui => 0x1000e7,
            KeyCode::MediaPlayPause => 0x1000e8,
            KeyCode::MediaStopCd => 0x1000e9,
            KeyCode::MediaPrevioussong => 0x1000ea,
            KeyCode::MediaNextsong => 0x1000eb,
            KeyCode::MediaEjectCd => 0x1000ec,
            KeyCode::MediaVolumeUp => 0x1000ed,
            KeyCode::MediaVolumeDown => 0x1000ee,
            KeyCode::MediaMUte => 0x1000ef,
            KeyCode::MediaWww => 0x1000f0,
            KeyCode::MediaBack => 0x1000f1,
            KeyCode::MediaForward => 0x1000f2,
            KeyCode::MediaStop => 0x1000f3,
            KeyCode::MediaFind => 0x1000f4,
            KeyCode::MediaScrollUp => 0x1000f5,
            KeyCode::MediaScrollDown => 0x1000f6,
            KeyCode::MediaEdit => 0x1000f7,
            KeyCode::MediaSleep => 0x1000f8,
            KeyCode::MediaCoffee => 0x1000f9,
            KeyCode::MediaRefresh => 0x1000fa,
            KeyCode::MediaCalc => 0x1000fb,
        }
    }

    /// The key code whose USB usage code is `ii`, or an error message if
    /// no key code has that usage code.
    pub fn try_from(ii: u8) -> (r: Result<KeyCode, String>)
        ensures
            r is Ok <==> is_keycode_value((ii as u32 + UNICODE_BELOW_256) as u32),
            r matches Ok(k) ==> keycode_value(k) == ii as u32 + UNICODE_BELOW_256,
            r matches Err(e) ==> e@ == no_match_text((ii as u32 + UNICODE_BELOW_256) as u32),
    {
        let x: u32 = ii as u32 + UNICODE_BELOW_256;
        match keycode_from_u32(x) {
            Some(k) => Ok(k),
            None => Err(no_matching_keycode_message(x)),
        }
    }
}

/// KeyCodes not being used by anything by default,
/// so you're free to use these to assign macros, tap dances, leaders
/// and what not.
#[derive(Copy, Clone, PartialEq, Eq, Structural, Debug)]
pub enum UserKey {
    UK0,
    UK1,
    UK2,
    UK3,
    UK4,
    UK5,
    UK6,
    UK7,
    UK8,
    UK9,
    UK10,
    UK11,
    UK12,
    UK13,
    UK14,
    UK15,
    UK16,
    UK17,
    UK18,
    UK19,
    UK20,
    UK21,
    UK22,
    UK23,
    UK24,
    UK25,
    UK26,
    UK27,
    UK28,
    UK29,
    UK30,
    UK31,
    UK32,
    UK33,
    UK34,
    UK35,
    UK36,
    UK37,
    UK38,
    UK39,
    UK40,
    UK41,
    UK42,
    UK43,
    UK44,
    UK45,
    UK46,
    UK47,
    UK48,
    UK49,
    UK50,
    UK51,
    UK52,
    UK53,
    UK54,
    UK55,
    UK56,
    UK57,
    UK58,
    UK59,
    UK60,
    UK61,
    UK62,
    UK63,
    UK64,
    UK65,
    UK66,
    UK67,
    UK68,
    UK69,
    UK70,
    UK71,
    UK72,
    UK73,
    UK74,
    UK75,
    UK76,
    UK77,
    UK78,
    UK79,
    UK80,
    UK81,
    UK82,
    UK83,
    UK84,
    UK85,
    UK86,
    UK87,
    UK88,
    UK89,
    UK90,
    UK91,
    UK92,
    UK93,
    UK94,
    UK95,
    UK96,
    UK97,
    UK98,
    UK99,
}

/// The value of a user key: `0xF0100` plus its number.
pub open spec fn userkey_value(k: UserKey) -> u32 {
    match k {
        UserKey::UK0 => 0xf0100,
        UserKey::UK1 => 0xf0101,
        UserKey::UK2 => 0xf0102,
        UserKey::UK3 => 0xf0103,
        UserKey::UK4 => 0xf0104,
        UserKey::UK5 => 0xf0105,
        UserKey::UK6 => 0xf0106,
        UserKey::UK7 => 0xf0107,
        UserKey::UK8 => 0xf0108,
        UserKey::UK9 => 0xf0109,
        UserKey::UK10 => 0xf010a,
        UserKey::UK11 => 0xf010b,
        UserKey::UK12 => 0xf010c,
        UserKey::UK13 => 0xf010d,
        UserKey::UK14 => 0xf010e,
        UserKey::UK15 => 0xf010f,
        UserKey::UK16 => 0xf0110,
        UserKey::UK17 => 0xf0111,
        UserKey::UK18 => 0xf0112,
        UserKey::UK19 => 0xf0113,
        UserKey::UK20 => 0xf0114,
        UserKey::UK21 => 0xf0115,
        UserKey::UK22 => 0xf0116,
        UserKey::UK23 => 0xf0117,
        UserKey::UK24 => 0xf0118,
        UserKey::UK25 => 0xf0119,
        UserKey::UK26 => 0xf011a,
        UserKey::UK27 => 0xf011b,
        UserKey::UK28 => 0xf011c,
        UserKey::UK29 => 0xf011d,
        UserKey::UK30 => 0xf011e,
        UserKey::UK31 => 0xf011f,
        UserKey::UK32 => 0xf0120,
        UserKey::UK33 => 0xf0121,
        UserKey::UK34 => 0xf0122,
        UserKey::UK35 => 0xf0123,
        UserKey::UK36 => 0xf0124,
        UserKey::UK37 => 0xf0125,
        UserKey::UK38 => 0xf0126,
        UserKey::UK39 => 0xf0127,
        UserKey::UK40 => 0xf0128,
        UserKey::UK41 => 0xf0129,
        UserKey::UK42 => 0xf012a,
        UserKey::UK43 => 0xf012b,
        UserKey::UK44 => 0xf012c,
        UserKey::UK45 => 0xf012d,
        UserKey::UK46 => 0xf012e,
        UserKey::UK47 => 0xf012f,
        UserKey::UK48 => 0xf0130,
        UserKey::UK49 => 0xf0131,
        UserKey::UK50 => 0xf0132,
        UserKey::UK51 => 0xf0133,
        UserKey::UK52 => 0xf0134,
        UserKey::UK53 => 0xf0135,
        UserKey::UK54 => 0xf0136,
        UserKey::UK55 => 0xf0137,
        UserKey::UK56 => 0xf0138,
        UserKey::UK57 => 0xf0139,
        UserKey::UK58 => 0xf013a,
        UserKey::UK59 => 0xf013b,
        UserKey::UK60 => 0xf013c,
        UserKey::UK61 => 0xf013d,
        UserKey::UK62 => 0xf013e,
        UserKey::UK63 => 0xf013f,
        UserKey::UK64 => 0xf0140,
        UserKey::UK65 => 0xf0141,
        UserKey::UK66 => 0xf0142,
        UserKey::UK67 => 0xf0143,
        UserKey::UK68 => 0xf0144,
        UserKey::UK69 => 0xf0145,
        UserKey::UK70 => 0xf0146,
        UserKey::UK71 => 0xf0147,
        UserKey::UK72 => 0xf0148,
        UserKey::UK73 => 0xf0149,
        UserKey::UK74 => 0xf014a,
        UserKey::UK75 => 0xf014b,
        UserKey::UK76 => 0xf014c,
        UserKey::UK77 => 0xf014d,
        UserKey::UK78 => 0xf014e,
        UserKey::UK79 => 0xf014f,
        UserKey::UK80 => 0xf0150,
        UserKey::UK81 => 0xf0151,
        UserKey::UK82 => 0xf0152,
        UserKey::UK83 => 0xf0153,
        UserKey::UK84 => 0xf0154,
        UserKey::UK85 => 0xf0155,
        UserKey::UK86 => 0xf0156,
        UserKey::UK87 => 0xf0157,
        UserKey::UK88 => 0xf0158,
        UserKey::UK89 => 0xf0159,
        UserKey::UK90 => 0xf015a,
        UserKey::UK91 => 0xf015b,
        UserKey::UK92 => 0xf015c,
        UserKey::UK93 => 0xf015d,
        UserKey::UK94 => 0xf015e,
        UserKey::UK95 => 0xf015f,
        UserKey::UK96 => 0xf0160,
        UserKey::UK97 => 0xf0161,
        UserKey::UK98 => 0xf0162,
        UserKey::UK99 => 0xf0163,
    }
}

impl UserKey {
    /// The value of this user key.
    pub fn to_u32(self) -> (r: u32)
        ensures
            r == userkey_value(self),
    {
        match self {
            UserKey::UK0 => 0xf0100,
            UserKey::UK1 => 0xf0101,
            UserKey::UK2 => 0xf0102,
            UserKey::UK3 => 0xf0103,
            UserKey::UK4 => 0xf0104,
            UserKey::UK5 => 0xf0105,
            UserKey::UK6 => 0xf0106,
            UserKey::UK7 => 0xf0107,
            UserKey::UK8 => 0xf0108,
            UserKey::UK9 => 0xf0109,
            UserKey::UK10 => 0xf010a,
            UserKey::UK11 => 0xf010b,
            UserKey::UK12 => 0xf010c,
            UserKey::UK13 => 0xf010d,
            UserKey::UK14 => 0xf010e,
            UserKey::UK15 => 0xf010f,
            UserKey::UK16 => 0xf0110,
            UserKey::UK17 => 0xf0111,
            UserKey::UK18 => 0xf0112,
            UserKey::UK19 => 0xf0113,
            UserKey::UK20 => 0xf0114,
            UserKey::UK21 => 0xf0115,
            UserKey::UK22 => 0xf0116,
            UserKey::UK23 => 0xf0117,
            UserKey::UK24 => 0xf0118,
            UserKey::UK25 => 0xf0119,
            UserKey::UK26 => 0xf011a,
            UserKey::UK27 => 0xf011b,
            UserKey::UK28 => 0xf011c,
            UserKey::UK29 => 0xf011d,
            UserKey::UK30 => 0xf011e,
            UserKey::UK31 => 0xf011f,
            UserKey::UK32 => 0xf0120,
            UserKey::UK33 => 0xf0121,
            UserKey::UK34 => 0xf0122,
            UserKey::UK35 => 0xf0123,
            UserKey::UK36 => 0xf0124,
            UserKey::UK37 => 0xf0125,
            UserKey::UK38 => 0xf0126,
            UserKey::UK39 => 0xf0127,
            UserKey::UK40 => 0xf0128,
            UserKey::UK41 => 0xf0129,
            UserKey::UK42 => 0xf012a,
            UserKey::UK43 => 0xf012b,
            UserKey::UK44 => 0xf012c,
            UserKey::UK45 => 0xf012d,
            UserKey::UK46 => 0xf012e,
            UserKey::UK47 => 0xf012f,
            UserKey::UK48 => 0xf0130,
            UserKey::UK49 => 0xf0131,
            UserKey::UK50 => 0xf0132,
            UserKey::UK51 => 0xf0133,
            UserKey::UK52 => 0xf0134,
            UserKey::UK53 => 0xf0135,
            UserKey::UK54 => 0xf0136,
            UserKey::UK55 => 0xf0137,
            UserKey::UK56 => 0xf0138,
            UserKey::UK57 => 0xf0139,
            UserKey::UK58 => 0xf013a,
            UserKey::UK59 => 0xf013b,
            UserKey::UK60 => 0xf013c,
            UserKey::UK61 => 0xf013d,
            UserKey::UK62 => 0xf013e,
            UserKey::UK63 => 0xf013f,
            UserKey::UK64 => 0xf0140,
            UserKey::UK65 => 0xf0141,
            UserKey::UK66 => 0xf0142,
            UserKey::UK67 => 0xf0143,
            UserKey::UK68 => 0xf0144,
            UserKey::UK69 => 0xf0145,
            UserKey::UK70 => 0xf0146,
            UserKey::UK71 => 0xf0147,
            UserKey::UK72 => 0xf0148,
            UserKey::UK73 => 0xf0149,
            UserKey::UK74 => 0xf014a,
            UserKey::UK75 => 0xf014b,
            UserKey::UK76 => 0xf014c,
            UserKey::UK77 => 0xf014d,
            UserKey::UK78 => 0xf014e,
            UserKey::UK79 => 0xf014f,
            UserKey::UK80 => 0xf0150,
            UserKey::UK81 => 0xf0151,
            UserKey::UK82 => 0xf0152,
            UserKey::UK83 => 0xf0153,
            UserKey::UK84 => 0xf0154,
            UserKey::UK85 => 0xf0155,
            UserKey::UK86 => 0xf0156,
            UserKey::UK87 => 0xf0157,
            UserKey::UK88 => 0xf0158,
            UserKey::UK89 => 0xf0159,
            UserKey::UK90 => 0xf015a,
            UserKey::UK91 => 0xf015b,
            UserKey::UK92 => 0xf015c,
            UserKey::UK93 => 0xf015d,
            UserKey::UK94 => 0xf015e,
            UserKey::UK95 => 0xf015f,
            UserKey::UK96 => 0xf0160,
            UserKey::UK97 => 0xf0161,
            UserKey::UK98 => 0xf0162,
            UserKey::UK99 => 0xf0163,
        }
    }
}
/// The decimal digits of `n`, most significant first.
pub open spec fn decimal(n: nat) -> Seq<char>
    decreases n,
{
    if n < 10 {
        seq![(48 + n) as char]
    } else {
        decimal(n / 10).push((48 + n % 10) as char)
    }
}

/// The text of the error of `KeyCode::try_from` for the value `x`.
pub open spec fn no_match_text(x: u32) -> Seq<char> {
    "No discriminant in enum `KeyCode` matches the value `"@ + decimal(x as nat) + "`"@
}

/// `format!("{}", x)` for a `u32`: Rust's `Display` writes it in decimal,
/// without sign or leading zeros.
#[verifier::external_body]
pub(crate) fn u32_to_decimal(x: u32) -> (r: String)
    ensures
        r@ == decimal(x as nat),
{
    format!("{}", x)
}

/// The error text of `KeyCode::try_from` for the value `x`.
fn no_matching_keycode_message(x: u32) -> (r: String)
    ensures
        r@ == no_match_text(x),
{
    let mut msg = String::from_str("No discriminant in enum `KeyCode` matches the value `");
    let digits = u32_to_decimal(x);
    msg.append(digits.as_str());
    msg.append("`");
    msg
}

/// Things that can be converted to a u32 keycode:
/// various integers, and (usb) KeyCodes and UserKeys themselves.
pub trait AcceptsKeycode {
    /// The key code this value stands for.
    spec fn keycode_spec(&self) -> u32;

    fn to_u32(&self) -> (r: u32)
        ensures
            r == self.keycode_spec(),
    ;
}

impl AcceptsKeycode for u32 {
    open spec fn keycode_spec(&self) -> u32 {
        *self
    }

    fn to_u32(&self) -> (r: u32) {
        *self
    }
}

impl AcceptsKeycode for &u32 {
    open spec fn keycode_spec(&self) -> u32 {
        **self
    }

    fn to_u32(&self) -> (r: u32) {
        **self
    }
}

impl AcceptsKeycode for i32 {
    open spec fn keycode_spec(&self) -> u32 {
        *self as u32
    }

    fn to_u32(&self) -> (r: u32) {
        #[verifier::truncate]
        (*self as u32)
    }
}

impl AcceptsKeycode for KeyCode {
    open spec fn keycode_spec(&self) -> u32 {
        keycode_value(*self)
    }

    fn to_u32(&self) -> (r: u32) {
        KeyCode::to_u32(*self)
    }
}

impl AcceptsKeycode for UserKey {
    open spec fn keycode_spec(&self) -> u32 {
        userkey_value(*self)
    }

    fn to_u32(&self) -> (r: u32) {
        UserKey::to_u32(*self)
    }
}

impl AcceptsKeycode for &UserKey {
    open spec fn keycode_spec(&self) -> u32 {
        userkey_value(**self)
    }

    fn to_u32(&self) -> (r: u32) {
        UserKey::to_u32(**self)
    }
}

/// Whether `x` is the value of a USB key code up to RGui.
pub open spec fn is_usb_code(x: u32) -> bool {
    UNICODE_BELOW_256 <= x <= UNICODE_BELOW_256 + 0xe7
}

/// Whether `x` is the value of one of the user keys UK0 ..= UK99.
pub open spec fn is_private_code(x: u32) -> bool {
    0xf0100 <= x <= 0xf0163
}

/// Classification of raw key codes.
pub trait KeyCodeInfo {
    spec fn usb_keycode_spec(self) -> bool;

    spec fn private_keycode_spec(self) -> bool;

    fn is_usb_keycode(self) -> (r: bool)
        ensures
            r == self.usb_keycode_spec(),
    ;

    fn is_private_keycode(self) -> (r: bool)
        ensures
            r == self.private_keycode_spec(),
    ;
}

impl KeyCodeInfo for u32 {
    open spec fn usb_keycode_spec(self) -> bool {
        is_usb_code(self)
    }

    open spec fn private_keycode_spec(self) -> bool {
        is_private_code(self)
    }

    /// USB key codes from `No` up to `RGui`.
    fn is_usb_keycode(self) -> (r: bool) {
        UNICODE_BELOW_256 <= self && self <= UNICODE_BELOW_256 + 0xE7
    }

    /// The user keys `UK0 ..= UK99`.
    fn is_private_keycode(self) -> (r: bool) {
        UserKey::UK0.to_u32() <= self && self <= UserKey::UK99.to_u32()
    }
}


/// Law: a key code's USB usage code leads back to the key code:
/// `KeyCode::try_from(k.to_u8())` is `Ok(k)`.
pub proof fn law_usb_code_roundtrip(k: KeyCode, back: KeyCode)
    requires
        keycode_value(back) == ((keycode_value(k) - UNICODE_BELOW_256) as u8) as u32 + UNICODE_BELOW_256,
    ensures
        is_keycode_value((((keycode_value(k) - UNICODE_BELOW_256) as u8) as u32 + UNICODE_BELOW_256) as u32),
        back == k,
{
    lemma_keycode_value_in_blocks(k);
    lemma_keycode_value_injective(back, k);
}

/// Law: the user keys are private key codes, distinct from each other and
/// from every USB key code.
pub proof fn law_user_keys_private(u: UserKey, v: UserKey, k: KeyCode)
    ensures
        is_private_code(userkey_value(u)),
        !is_usb_code(userkey_value(u)),
        userkey_value(u) != keycode_value(k),
        userkey_value(u) == userkey_value(v) ==> u == v,
{
    lemma_keycode_value_in_blocks(k);
}

} // verus!
