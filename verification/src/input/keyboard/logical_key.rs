//! Logical keyboard keys: non-location based key values used by UI and text input

use vstd::prelude::*;
use vstd::string::StrSliceExecFns;

verus! {

/// A logical keyboard input.
///
/// Used by non-location based input mappings, like UI and text input.
#[derive(Debug, Clone, PartialEq, Eq, Hash)]
pub enum LogicalKey {
    /// A character
    Character(char),
    /// A longer string of characters. Can be, for example, emoji
    String(String),
    /// A named key, like "shift" or "backspace"
    Named(LogicalNamed),
    /// An unknown key. Can be used for advanced input mappings
    Unknown(UnknownLogicalKey),
}

/// An unknown logical key with its identifier
#[derive(Debug, Clone, PartialEq, Eq, Hash)]
pub enum UnknownLogicalKey {
    /// Keycode
    Code(u32),
    /// String identifier
    String(String),
}

/// The mathematical value of a [LogicalKey]: strings are taken as their characters
pub enum LogicalKeyView {
    /// A character
    Character(char),
    /// A longer string of characters
    String(Seq<char>),
    /// A named key
    Named(LogicalNamed),
    /// An unknown key with a keycode
    UnknownCode(u32),
    /// An unknown key with a string identifier
    UnknownString(Seq<char>),
}

impl View for LogicalKey {
    type V = LogicalKeyView;

    open spec fn view(&self) -> LogicalKeyView {
        match self {
            LogicalKey::Character(c) => LogicalKeyView::Character(*c),
            LogicalKey::String(s) => LogicalKeyView::String(s@),
            LogicalKey::Named(n) => LogicalKeyView::Named(*n),
            LogicalKey::Unknown(UnknownLogicalKey::Code(c)) => LogicalKeyView::UnknownCode(*c),
            LogicalKey::Unknown(UnknownLogicalKey::String(s)) => LogicalKeyView::UnknownString(s@),
        }
    }
}

impl LogicalKey {
    /// The logical key of the characters a key produces: a single character, or a string
    /// when there are more. There must be at least one character
    pub fn from_character(ch: &str) -> (r: Self)
        requires
            ch@.len() > 0,
        ensures
            ch@.len() == 1 ==> r == LogicalKey::Character(ch@[0]),
            ch@.len() > 1 ==> (r matches LogicalKey::String(s) && s@ == ch@),
    {
        if ch.unicode_len() > 1 {
            LogicalKey::String(ch.to_owned())
        } else {
            LogicalKey::Character(ch.get_char(0))
        }
    }

    /// A copy of this key with the same value
    pub fn duplicate(&self) -> (r: Self)
        ensures
            r@ == self@,
    {
        match self {
            LogicalKey::Character(c) => LogicalKey::Character(*c),
            LogicalKey::String(s) => LogicalKey::String(s.clone()),
            LogicalKey::Named(n) => LogicalKey::Named(*n),
            LogicalKey::Unknown(UnknownLogicalKey::Code(c)) => LogicalKey::Unknown(UnknownLogicalKey::Code(*c)),
            LogicalKey::Unknown(UnknownLogicalKey::String(s)) => LogicalKey::Unknown(
                UnknownLogicalKey::String(s.clone()),
            ),
        }
    }
}

/// A named non-character keyboard value, such as a modifier, navigation,
/// editing, media or function key.
#[derive(Debug, Clone, Copy, PartialEq, Eq, Structural, Hash)]
pub enum LogicalNamed {
    Alt,
    AltGraph,
    CapsLock,
    Control,
    Fn,
    FnLock,
    NumLock,
    ScrollLock,
    Shift,
    Symbol,
    SymbolLock,
    Meta,
    Hyper,
    Super,
    Enter,
    Tab,
    Space,
    ArrowDown,
    ArrowLeft,
    ArrowRight,
    ArrowUp,
    End,
    Home,
    PageDown,
    PageUp,
    Backspace,
    Clear,
    Copy,
    CrSel,
    Cut,
    Delete,
    EraseEof,
    ExSel,
    Insert,
    Paste,
    Redo,
    Undo,
    Accept,
    Again,
    Attn,
    Cancel,
    ContextMenu,
    Escape,
    Execute,
    Find,
    Help,
    Pause,
    Play,
    Props,
    Select,
    ZoomIn,
    ZoomOut,
    BrightnessDown,
    BrightnessUp,
    Eject,
    LogOff,
    Power,
    PowerOff,
    PrintScreen,
    Hibernate,
    Standby,
    WakeUp,
    AllCandidates,
    Alphanumeric,
    CodeInput,
    Compose,
    Convert,
    FinalMode,
    GroupFirst,
    GroupLast,
    GroupNext,
    GroupPrevious,
    ModeChange,
    NextCandidate,
    NonConvert,
    PreviousCandidate,
    Process,
    SingleCandidate,
    HangulMode,
    HanjaMode,
    JunjaMode,
    Eisu,
    Hankaku,
    Hiragana,
    HiraganaKatakana,
    KanaMode,
    KanjiMode,
    Katakana,
    Romaji,
    Zenkaku,
    ZenkakuHankaku,
    Soft1,
    Soft2,
    Soft3,
    Soft4,
    ChannelDown,
    ChannelUp,
    Close,
    MailForward,
    MailReply,
    MailSend,
    MediaClose,
    MediaFastForward,
    MediaPause,
    MediaPlay,
    MediaPlayPause,
    MediaRecord,
    MediaRewind,
    MediaStop,
    MediaTrackNext,
    MediaTrackPrevious,
    New,
    Open,
    Print,
    Save,
    SpellCheck,
    Key11,
    Key12,
    AudioBalanceLeft,
    AudioBalanceRight,
    AudioBassBoostDown,
    AudioBassBoostToggle,
    AudioBassBoostUp,
    AudioFaderFront,
    AudioFaderRear,
    AudioSurroundModeNext,
    AudioTrebleDown,
    AudioTrebleUp,
    AudioVolumeDown,
    AudioVolumeUp,
    AudioVolumeMute,
    MicrophoneToggle,
    MicrophoneVolumeDown,
    MicrophoneVolumeUp,
    MicrophoneVolumeMute,
    SpeechCorrectionList,
    SpeechInputToggle,
    LaunchApplication1,
    LaunchApplication2,
    LaunchCalendar,
    LaunchContacts,
    LaunchMail,
    LaunchMediaPlayer,
    LaunchMusicPlayer,
    LaunchPhone,
    LaunchScreenSaver,
    LaunchSpreadsheet,
    LaunchWebBrowser,
    LaunchWebCam,
    LaunchWordProcessor,
    BrowserBack,
    BrowserFavorites,
    BrowserForward,
    BrowserHome,
    BrowserRefresh,
    BrowserSearch,
    BrowserStop,
    AppSwitch,
    Call,
    Camera,
    CameraFocus,
    EndCall,
    GoBack,
    GoHome,
    HeadsetHook,
    LastNumberRedial,
    Notification,
    MannerMode,
    VoiceDial,
    TV,
    TV3DMode,
    TVAntennaCable,
    TVAudioDescription,
    TVAudioDescriptionMixDown,
    TVAudioDescriptionMixUp,
    TVContentsMenu,
    TVDataService,
    TVInput,
    TVInputComponent1,
    TVInputComponent2,
    TVInputComposite1,
    TVInputComposite2,
    TVInputHDMI1,
    TVInputHDMI2,
    TVInputHDMI3,
    TVInputHDMI4,
    TVInputVGA1,
    TVMediaContext,
    TVNetwork,
    TVNumberEntry,
    TVPower,
    TVRadioService,
    TVSatellite,
    TVSatelliteBS,
    TVSatelliteCS,
    TVSatelliteToggle,
    TVTerrestrialAnalog,
    TVTerrestrialDigital,
    TVTimer,
    AVRInput,
    AVRPower,
    ColorF0Red,
    ColorF1Green,
    ColorF2Yellow,
    ColorF3Blue,
    ColorF4Grey,
    ColorF5Brown,
    ClosedCaptionToggle,
    Dimmer,
    DisplaySwap,
    Dvr,
    Exit,
    FavoriteClear0,
    FavoriteClear1,
    FavoriteClear2,
    FavoriteClear3,
    FavoriteRecall0,
    FavoriteRecall1,
    FavoriteRecall2,
    FavoriteRecall3,
    FavoriteStore0,
    FavoriteStore1,
    FavoriteStore2,
    FavoriteStore3,
    Guide,
    GuideNextDay,
    GuidePreviousDay,
    Info,
    InstantReplay,
    Link,
    ListProgram,
    LiveContent,
    Lock,
    MediaApps,
    MediaAudioTrack,
    MediaLast,
    MediaSkipBackward,
    MediaSkipForward,
    MediaStepBackward,
    MediaStepForward,
    MediaTopMenu,
    NavigateIn,
    NavigateNext,
    NavigateOut,
    NavigatePrevious,
    NextFavoriteChannel,
    NextUserProfile,
    OnDemand,
    Pairing,
    PinPDown,
    PinPMove,
    PinPToggle,
    PinPUp,
    PlaySpeedDown,
    PlaySpeedReset,
    PlaySpeedUp,
    RandomToggle,
    RcLowBattery,
    RecordSpeedNext,
    RfBypass,
    ScanChannelsToggle,
    ScreenModeNext,
    Settings,
    SplitScreenToggle,
    STBInput,
    STBPower,
    Subtitle,
    Teletext,
    VideoModeNext,
    Wink,
    ZoomToggle,
    F1,
    F2,
    F3,
    F4,
    F5,
    F6,
    F7,
    F8,
    F9,
    F10,
    F11,
    F12,
    F13,
    F14,
    F15,
    F16,
    F17,
    F18,
    F19,
    F20,
    F21,
    F22,
    F23,
    F24,
    F25,
    F26,
    F27,
    F28,
    F29,
    F30,
    F31,
    F32,
    F33,
    F34,
    F35,
}

} // verus!
