//! What the bootloader screens decide: the codes they return, the labels they
//! show, and what a touch means to them. Drawing and reading the touch panel
//! are left to the caller.

use crate::text::{byte_len, lemma_byte_len_ascii, lemma_byte_len_concat};
use vstd::prelude::*;
use vstd::string::*;

verus! {

/// The fixed-capacity string of `heapless`, which holds the labels.
#[verifier::external_type_specification]
#[verifier::external_body]
pub struct ExHeaplessString<const N: usize>(heapless::String<N>);

/// The text that a title of at most 20 bytes holds.
pub uninterp spec fn title_text(title: heapless::String<20>) -> Seq<char>;

/// The text that a line of at most 30 bytes holds.
pub uninterp spec fn line_text(line: heapless::String<30>) -> Seq<char>;

/// `heapless::String::new` with a capacity of 20 bytes: the string that it
/// returns holds no text.
#[verifier::external_body]
fn title_new() -> (title: heapless::String<20>)
    ensures
        title_text(title) == Seq::<char>::empty(),
{
    heapless::String::new()
}

/// `heapless::String::push_str` with a capacity of 20 bytes: if the bytes of
/// the string and those of `text` together are more than 20, it fails and
/// leaves the string as it is; otherwise it puts `text` behind the string.
#[verifier::external_body]
fn title_push_str(title: &mut heapless::String<20>, text: &str) -> (pushed: bool)
    ensures
        pushed == (byte_len(title_text(*old(title))) + byte_len(text@) <= 20),
        pushed ==> title_text(*final(title)) == title_text(*old(title)) + text@,
        !pushed ==> title_text(*final(title)) == title_text(*old(title)),
{
    title.push_str(text).is_ok()
}

/// `heapless::String::new` with a capacity of 30 bytes: the string that it
/// returns holds no text.
#[verifier::external_body]
fn line_new() -> (line: heapless::String<30>)
    ensures
        line_text(line) == Seq::<char>::empty(),
{
    heapless::String::new()
}

/// `heapless::String::push_str` with a capacity of 30 bytes: if the bytes of
/// the string and those of `text` together are more than 30, it fails and
/// leaves the string as it is; otherwise it puts `text` behind the string.
#[verifier::external_body]
fn line_push_str(line: &mut heapless::String<30>, text: &str) -> (pushed: bool)
    ensures
        pushed == (byte_len(line_text(*old(line))) + byte_len(text@) <= 30),
        pushed ==> line_text(*final(line)) == line_text(*old(line)) + text@,
        !pushed ==> line_text(*final(line)) == line_text(*old(line)),
{
    line.push_str(text).is_ok()
}

/// What a screen hands back to the C code that showed it.
pub trait ReturnToC {
    /// The code of this message.
    spec fn return_code(&self) -> u32;

    fn return_to_c(self) -> (code: u32)
        ensures
            code == self.return_code(),
    ;
}

/// What the confirmation screen answers.
#[derive(Copy, Clone, Debug, PartialEq, Eq, Structural)]
pub enum ConfirmMsg {
    Cancel,
    Confirm,
}

impl ReturnToC for ConfirmMsg {
    open spec fn return_code(&self) -> u32 {
        match self {
            ConfirmMsg::Cancel => 1,
            ConfirmMsg::Confirm => 2,
        }
    }

    fn return_to_c(self) -> (code: u32) {
        match self {
            ConfirmMsg::Cancel => 1,
            ConfirmMsg::Confirm => 2,
        }
    }
}

/// What the intro screen answers.
#[derive(Copy, Clone, Debug, PartialEq, Eq, Structural)]
pub enum IntroMsg {
    Menu,
    Host,
}

impl ReturnToC for IntroMsg {
    open spec fn return_code(&self) -> u32 {
        match self {
            IntroMsg::Menu => 1,
            IntroMsg::Host => 2,
        }
    }

    fn return_to_c(self) -> (code: u32) {
        match self {
            IntroMsg::Menu => 1,
            IntroMsg::Host => 2,
        }
    }
}

/// One reading of the touch panel, taken apart.
#[derive(Copy, Clone, Debug, PartialEq, Eq, Structural)]
pub struct TouchSample {
    /// What happened: the top 8 bits of the reading.
    pub event_type: u32,
    /// Where, from the left: bits 12 to 23 of the reading.
    pub x: i16,
    /// Where, from the top: the low 12 bits of the reading.
    pub y: i16,
}

/// The sample in a reading of the touch panel: none in the reading 0.
pub open spec fn touch_spec(event: u32) -> Option<TouchSample> {
    if event == 0 {
        None
    } else {
        Some(
            TouchSample {
                event_type: event >> 24,
                x: ((event >> 12) & 0xFFF) as i16,
                y: (event & 0xFFF) as i16,
            },
        )
    }
}

/// Takes a reading of the touch panel apart.
pub fn touch_eval(event: u32) -> (sample: Option<TouchSample>)
    ensures
        sample == touch_spec(event),
        sample matches Some(touch) ==> 0 <= touch.x < 4096 && 0 <= touch.y < 4096
            && touch.event_type < 256,
{
    if event == 0 {
        return None;
    }
    let event_type = event >> 24;
    let x = (event >> 12) & 0xFFF;
    let y = event & 0xFFF;
    assert(x < 4096 && y < 4096 && event_type < 256) by (bit_vector)
        requires
            event_type == event >> 24,
            x == (event >> 12) & 0xFFF,
            y == event & 0xFFF,
    ;
    Some(TouchSample { event_type, x: x as i16, y: y as i16 })
}

/// What stands before the version in the title of the intro screen.
pub const BOOTLOADER: &'static str = "BOOTLOADER ";

/// What stands before the version on the screen that asks whether to install.
pub const FIRMWARE_VERSION: &'static str = "Firmware version ";

/// The title of the intro screen for the bootloader version `bld_version`.
pub open spec fn intro_title_spec(bld_version: Seq<char>) -> Seq<char> {
    BOOTLOADER@ + bld_version
}

/// The line that names the firmware version `version`.
pub open spec fn version_line_spec(version: Seq<char>) -> Seq<char> {
    FIRMWARE_VERSION@ + version
}

/// What stands before the version takes 11 bytes in the title of the intro
/// screen and 17 bytes in the line that names a firmware version, and the
/// version takes its own bytes behind it.
pub proof fn lemma_label_lengths(version: Seq<char>)
    ensures
        byte_len(BOOTLOADER@) == 11,
        byte_len(FIRMWARE_VERSION@) == 17,
        byte_len(intro_title_spec(version)) == 11 + byte_len(version),
        byte_len(version_line_spec(version)) == 17 + byte_len(version),
{
    reveal_strlit("BOOTLOADER ");
    reveal_strlit("Firmware version ");
    lemma_byte_len_ascii(BOOTLOADER@);
    lemma_byte_len_ascii(FIRMWARE_VERSION@);
    lemma_byte_len_concat(BOOTLOADER@, version);
    lemma_byte_len_concat(FIRMWARE_VERSION@, version);
}

/// Which button of a screen a touch has clicked.
#[derive(Copy, Clone, Debug, PartialEq, Eq, Structural)]
pub enum Click {
    /// The button in the corner: the menu of the intro screen, or the button
    /// that opens or closes the information of the confirmation screen.
    Corner,
    /// The left button of the confirmation screen.
    Left,
    /// The right button of the confirmation screen, or the only button of the
    /// intro screen.
    Right,
}

/// The intro screen: it shows the version of the bootloader, a menu button
/// in the corner and a button that starts the installation.
pub struct Intro {
    title: heapless::String<20>,
}

impl Intro {
    /// The title of the screen.
    pub closed spec fn title_spec(&self) -> Seq<char> {
        title_text(self.title)
    }

    /// The intro screen for the bootloader version `bld_version`, which has
    /// to fit, behind the 11 bytes of `BOOTLOADER `, into the 20 bytes of the
    /// title.
    pub fn new(bld_version: &str) -> (intro: Self)
        requires
            byte_len(bld_version@) <= 9,
        ensures
            intro.title_spec() == intro_title_spec(bld_version@),
    {
        proof {
            lemma_label_lengths(bld_version@);
        }
        let mut title = title_new();
        title_push_str(&mut title, BOOTLOADER);
        title_push_str(&mut title, bld_version);
        Intro { title }
    }

    /// The title of the screen.
    pub fn title(&self) -> (title: &heapless::String<20>)
        ensures
            title_text(*title) == self.title_spec(),
    {
        &self.title
    }

    /// What the screen answers to a click: the corner opens the menu, the
    /// button on the right starts the installation from the host.
    pub fn event(&self, click: Click) -> (msg: Option<IntroMsg>)
        ensures
            msg == (match click {
                Click::Corner => Some(IntroMsg::Menu),
                Click::Right => Some(IntroMsg::Host),
                Click::Left => None,
            }),
    {
        match click {
            Click::Corner => Some(IntroMsg::Menu),
            Click::Right => Some(IntroMsg::Host),
            Click::Left => None,
        }
    }
}

/// The confirmation screen: a message, a button on the left and one on the
/// right, and, if it has information to show, a button in the corner that
/// opens and closes it.
pub struct Confirm {
    info_title: Option<heapless::String<20>>,
    show_info: bool,
    confirm_left: bool,
}

impl Confirm {
    /// The title of the information, if the screen has any.
    pub closed spec fn info_title_spec(&self) -> Option<Seq<char>> {
        match self.info_title {
            Some(title) => Some(title_text(title)),
            None => None,
        }
    }

    /// Whether the information is open.
    pub closed spec fn shows_info(&self) -> bool {
        self.show_info
    }

    /// Whether the left button confirms and the right one cancels.
    pub closed spec fn confirms_left(&self) -> bool {
        self.confirm_left
    }

    /// A confirmation screen with its information closed. The title of the
    /// information, if there is any, has to fit into 20 bytes.
    pub fn new(confirm_left: bool, info_title: Option<&str>) -> (confirm: Self)
        requires
            info_title matches Some(title) ==> byte_len(title@) <= 20,
        ensures
            confirm.confirms_left() == confirm_left,
            !confirm.shows_info(),
            confirm.info_title_spec() == (match info_title {
                Some(title) => Some(title@),
                None => None,
            }),
    {
        let info_title = match info_title {
            Some(text) => {
                let mut title = title_new();
                title_push_str(&mut title, text);
                Some(title)
            },
            None => None,
        };
        Confirm { info_title, show_info: false, confirm_left }
    }

    /// The title of the information, if the screen has any.
    pub fn info_title(&self) -> (title: Option<&heapless::String<20>>)
        ensures
            self.info_title_spec() == (match title {
                Some(text) => Some(title_text(*text)),
                None => None,
            }),
    {
        match &self.info_title {
            Some(text) => Some(text),
            None => None,
        }
    }

    /// Whether the information is open.
    pub fn is_showing_info(&self) -> (open: bool)
        ensures
            open == self.shows_info(),
    {
        self.show_info
    }

    /// What the screen does with a click. The corner opens the information,
    /// or closes it if it is open, and answers nothing; without information it
    /// does nothing. The buttons on the left and on the right answer, and
    /// which of them confirms was said when the screen was made.
    pub fn event(&mut self, click: Click) -> (msg: Option<ConfirmMsg>)
        ensures
            final(self).info_title_spec() == old(self).info_title_spec(),
            final(self).confirms_left() == old(self).confirms_left(),
            final(self).shows_info() == (if click == Click::Corner && old(
                self,
            ).info_title_spec() is Some {
                !old(self).shows_info()
            } else {
                old(self).shows_info()
            }),
            msg == (match click {
                Click::Corner => None,
                Click::Left => Some(
                    if old(self).confirms_left() {
                        ConfirmMsg::Confirm
                    } else {
                        ConfirmMsg::Cancel
                    },
                ),
                Click::Right => Some(
                    if old(self).confirms_left() {
                        ConfirmMsg::Cancel
                    } else {
                        ConfirmMsg::Confirm
                    },
                ),
            }),
    {
        match click {
            Click::Corner => {
                if self.info_title.is_some() {
                    self.show_info = !self.show_info;
                }
                None
            },
            Click::Left => if self.confirm_left {
                Some(ConfirmMsg::Confirm)
            } else {
                Some(ConfirmMsg::Cancel)
            },
            Click::Right => if self.confirm_left {
                Some(ConfirmMsg::Cancel)
            } else {
                Some(ConfirmMsg::Confirm)
            },
        }
    }
}

/// What the screen that asks whether to install a firmware says.
pub struct InstallPrompt {
    /// The title of the screen.
    pub title: &'static str,
    /// The line that names the version of the firmware.
    pub version: heapless::String<30>,
    /// Whether the screen warns that the seed will be erased.
    pub warns_of_erasure: bool,
}

/// The title of the screen that asks whether to install a firmware: a
/// downgrade is named first, then a change of vendor, else it is an update.
pub open spec fn install_title_spec(downgrade: bool, vendor: bool) -> Seq<char> {
    if downgrade {
        "DOWNGRADE FW"@
    } else if vendor {
        "CHANGE FW VENDOR"@
    } else {
        "UPDATE FIRMWARE"@
    }
}

/// What the screen says that asks whether to install the firmware of version
/// `version`, which has to fit, behind the 17 bytes of `Firmware version `,
/// into the 30 bytes of its line. A downgrade and a change of vendor erase the
/// seed.
pub fn screen_install_confirm(version: &str, downgrade: bool, vendor: bool) -> (prompt:
    InstallPrompt)
    requires
        byte_len(version@) <= 13,
    ensures
        prompt.title@ == install_title_spec(downgrade, vendor),
        line_text(prompt.version) == version_line_spec(version@),
        prompt.warns_of_erasure == (vendor || downgrade),
{
    proof {
        lemma_label_lengths(version@);
    }
    let mut version_str = line_new();
    line_push_str(&mut version_str, FIRMWARE_VERSION);
    line_push_str(&mut version_str, version);

    let title = if downgrade {
        "DOWNGRADE FW"
    } else if vendor {
        "CHANGE FW VENDOR"
    } else {
        "UPDATE FIRMWARE"
    };
    InstallPrompt { title, version: version_str, warns_of_erasure: vendor || downgrade }
}

} // verus!
