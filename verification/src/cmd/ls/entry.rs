//! One line of a listing: what is shown of an entry, given what the file
//! system reports of it.

use vstd::prelude::*;
use vstd::string::*;
use crate::cmd::cd::path_components;
use crate::cmd::ls::ls_config::{LsConfig, LsConfigView};
use crate::cmd::ls::utils::{ColorStyle, apply_color};
use crate::cmd::mv::{child, child_path, file_name, file_name_of};
use crate::text::{chars_of, string_of_char, texts};

verus! {

/// The kinds of entry that `ls` tells apart.
#[derive(Clone, Copy, Debug, PartialEq, Eq, Structural)]
pub enum FileType {
    Regular,
    Directory,
    Symlink,
    Executable,
    CharDevice,
    BlockDevice,
    Socket,
    NamedPipe,
}

/// What the file system says an entry is.
#[derive(Clone, Copy, Debug, PartialEq, Eq, Structural)]
pub enum Kind {
    Directory,
    Symlink,
    BlockDevice,
    CharDevice,
    Fifo,
    Socket,
    File,
    /// None of the others.
    Other,
}

/// What the file system reports of an entry.
#[derive(Clone, Copy, Debug, PartialEq, Eq, Structural)]
pub struct Stat {
    pub kind: Kind,
    /// The permission bits, with the set-id and sticky bits.
    pub mode: u32,
    /// The number of links.
    pub nlink: u64,
    pub uid: u32,
    pub gid: u32,
    /// The size in bytes.
    pub size: u64,
    /// The device number, for a device.
    pub rdev: u64,
    /// The time of the last change, in seconds since 1970.
    pub mtime: i64,
    /// The number of blocks of 512 bytes.
    pub blocks: u64,
}

/// What is known of an entry.
#[derive(Clone, Debug, PartialEq, Eq)]
pub struct Entry {
    /// What the file system reports of the entry itself, links not
    /// followed; `None` where permission to ask was denied.
    pub metadata: Option<Stat>,
    pub ls_config: LsConfig,
    pub path: String,
    /// Where the entry leads, if it is a link that can be read.
    pub sym_path: Option<String>,
    /// What the file system reports of what the entry leads to.
    pub sym_metadata: Option<Stat>,
    /// The operand under which the entry is listed.
    pub target_entry: String,
    /// What the directory that holds the entry says it is, where the entry
    /// itself could not be asked; `None` where that is not known either.
    pub listed_as: Option<Kind>,
}

/// What became of asking the file system about an entry.
#[derive(Clone, Debug, PartialEq, Eq)]
pub enum Lookup {
    /// It answered.  For a link that can be read, `sym_path` is where it
    /// leads, and `sym_metadata` what is reported of that, if anything.
    Found { metadata: Stat, sym_path: Option<String>, sym_metadata: Option<Stat> },
    /// There is nothing of that name.
    Missing,
    /// Permission was denied.  `listed_as` is what the directory that holds
    /// the entry says it is, if that is known.
    Denied { listed_as: Option<Kind> },
    /// It failed otherwise; this is the error as it is displayed.
    Failed(String),
}

/// Something to tell the user.
#[derive(Clone, Debug, PartialEq, Eq)]
pub struct Notice {
    pub text: String,
    /// Whether it goes to standard output; else to standard error.
    pub to_stdout: bool,
}

/// The notice about an entry, if there is one.
pub open spec fn notice_for(path: Seq<char>, lookup: Lookup) -> Option<(Seq<char>, bool)> {
    match lookup {
        Lookup::Found { .. } => None,
        Lookup::Missing => Some(
            ("ls: cannot access '"@ + path + "': No such file or directory"@, false),
        ),
        Lookup::Denied { .. } => Some(
            ("ls: cannot access '"@ + path + "': Permission denied"@, true),
        ),
        Lookup::Failed(message) => Some(("Error while Creating the entry: "@ + message@, false)),
    }
}

/// The status after an entry has been looked up: a failure other than a
/// missing entry makes it 1 unless it is 2.
pub open spec fn status_after(status: i32, lookup: Lookup) -> i32 {
    match lookup {
        Lookup::Denied { .. } | Lookup::Failed(_) => if status != 2 {
            1
        } else {
            2
        },
        _ => status,
    }
}

/// The view of an optional notice.
pub open spec fn notice_view(notice: Option<Notice>) -> Option<(Seq<char>, bool)> {
    match notice {
        Some(notice) => Some((notice.text@, notice.to_stdout)),
        None => None,
    }
}

/// The kind, the letter that starts the permissions and the mark that `-F`
/// puts after the name.
pub type Traits = (FileType, char, char);

/// Whether one of the three execute bits is set.
pub open spec fn is_executable(mode: u32) -> bool {
    mode & 0o111 != 0
}

/// What is shown for an entry that the file system reports `stat` of.
pub open spec fn entry_type(stat: Stat) -> Traits {
    match stat.kind {
        Kind::Directory => (FileType::Directory, 'd', '/'),
        Kind::Symlink => (FileType::Symlink, 'l', '@'),
        Kind::BlockDevice => (FileType::BlockDevice, 'b', ' '),
        Kind::CharDevice => (FileType::CharDevice, 'c', ' '),
        Kind::Fifo => (FileType::NamedPipe, 'p', '|'),
        Kind::Socket => (FileType::Socket, 's', '='),
        Kind::File => if is_executable(stat.mode) {
            (FileType::Executable, '-', '*')
        } else {
            (FileType::Regular, '-', ' ')
        },
        Kind::Other => (FileType::Regular, '-', ' '),
    }
}

/// What is shown for an entry of which only the directory that holds it
/// says what it is.
pub open spec fn listed_type(listed: Option<Kind>) -> Traits {
    match listed {
        Some(Kind::Symlink) => (FileType::Symlink, 'l', '@'),
        Some(Kind::Directory) => (FileType::Directory, 'd', '/'),
        Some(Kind::Fifo) => (FileType::NamedPipe, 'p', '|'),
        Some(Kind::Socket) => (FileType::Socket, 's', '='),
        Some(Kind::CharDevice) => (FileType::Socket, 'c', ' '),
        Some(Kind::BlockDevice) => (FileType::Socket, 'b', ' '),
        Some(Kind::File) => (FileType::Regular, '-', ' '),
        _ => (FileType::Regular, '?', '?'),
    }
}

/// The style in which a kind of entry is shown.
pub open spec fn style_of(kind: FileType) -> ColorStyle {
    match kind {
        FileType::Executable => ColorStyle::BoldGreen,
        FileType::Directory => ColorStyle::BlueBold,
        FileType::BlockDevice => ColorStyle::BoldYellow,
        FileType::CharDevice => ColorStyle::BoldYellow,
        FileType::NamedPipe => ColorStyle::BoldYellow,
        FileType::Symlink => ColorStyle::CyanBold,
        FileType::Socket => ColorStyle::BoldMagenta,
        FileType::Regular => ColorStyle::BrightWhite,
    }
}

/// The letter for the execute position of one class of users: `x` or `-`
/// by the execute bit, and in place of them `set` or `unset` where the
/// special bit of the class is set.
pub open spec fn execute_letter(mode: u32, exec: u32, special: u32, set: char, unset: char) -> char {
    if mode & exec != 0 {
        if mode & special != 0 {
            set
        } else {
            'x'
        }
    } else {
        if mode & special != 0 {
            unset
        } else {
            '-'
        }
    }
}

/// The three letters for one class of users.
pub open spec fn class_letters(
    mode: u32,
    read: u32,
    write: u32,
    exec: u32,
    special: u32,
    set: char,
    unset: char,
) -> Seq<char> {
    seq![
        if mode & read != 0 {
            'r'
        } else {
            '-'
        },
        if mode & write != 0 {
            'w'
        } else {
            '-'
        },
        execute_letter(mode, exec, special, set, unset),
    ]
}

/// The ten letters of the permissions: `symbol`, then the letters for the
/// owner, the group and the others.
pub open spec fn permission_text(symbol: char, mode: u32) -> Seq<char> {
    seq![symbol] + class_letters(mode, 0o400, 0o200, 0o100, 0o4000, 's', 'S') + class_letters(
        mode,
        0o040,
        0o020,
        0o010,
        0o2000,
        's',
        'S',
    ) + class_letters(mode, 0o004, 0o002, 0o001, 0o1000, 't', 'T')
}

/// The digit for a number below ten.
pub open spec fn digit(n: nat) -> char {
    ((48 + n) as u8) as char
}

/// A number in decimal.
pub open spec fn decimal_text(n: nat) -> Seq<char>
    decreases n,
{
    if n < 10 {
        seq![digit(n)]
    } else {
        decimal_text(n / 10).push(digit(n % 10))
    }
}

/// A number in decimal.
pub fn decimal(n: u64) -> (text: String)
    ensures
        text@ == decimal_text(n as nat),
    decreases n,
{
    if n < 10 {
        string_of_char(((48 + n) as u8) as char)
    } else {
        let mut text = decimal(n / 10);
        text.push(((48 + n % 10) as u8) as char);
        text
    }
}

/// The major number of a device: bits 8 to 19 and 44 to 63 of its number.
pub open spec fn major_of(rdev: u64) -> u32 {
    (((rdev & 0x0000_0000_000f_ff00) >> 8) | ((rdev & 0xffff_f000_0000_0000) >> 32)) as u32
}

/// The minor number of a device: bits 0 to 7 and 20 to 43 of its number.
pub open spec fn minor_of(rdev: u64) -> u32 {
    ((rdev & 0x0000_0000_0000_00ff) | ((rdev & 0x0000_0fff_fff0_0000) >> 12)) as u32
}

/// `libc::major` takes the major number out of a device number.
#[verifier::external_body]
fn device_major(rdev: u64) -> (major: u32)
    ensures
        major == major_of(rdev),
{
    libc::major(rdev)
}

/// `libc::minor` takes the minor number out of a device number.
#[verifier::external_body]
fn device_minor(rdev: u64) -> (minor: u32)
    ensures
        minor == minor_of(rdev),
{
    libc::minor(rdev)
}

/// The two size columns.  A device shows its major number, with a comma,
/// and its minor number; anything else shows nothing and its size.
pub open spec fn size_columns(stat: Stat) -> (Seq<char>, Seq<char>) {
    if stat.kind == Kind::CharDevice || stat.kind == Kind::BlockDevice {
        (
            decimal_text(major_of(stat.rdev) as nat).push(','),
            decimal_text(minor_of(stat.rdev) as nat),
        )
    } else {
        (Seq::empty(), decimal_text(stat.size as nat))
    }
}

/// `users::get_user_by_uid` looks the user up in the system's database and
/// `User::name` gives its name.  What is found depends on the system, so
/// nothing is claimed of it.
#[verifier::external_body]
fn lookup_user(uid: u32) -> Option<String> {
    match users::get_user_by_uid(uid) {
        Some(user) => Some(user.name().to_string_lossy().into_owned()),
        None => None,
    }
}

/// `users::get_group_by_gid` looks the group up in the system's database
/// and `Group::name` gives its name.  Nothing is claimed of what is found.
#[verifier::external_body]
fn lookup_group(gid: u32) -> Option<String> {
    match users::get_group_by_gid(gid) {
        Some(group) => Some(group.name().to_string_lossy().into_owned()),
        None => None,
    }
}

/// The name under which an owner is shown: the name found for it, or its
/// number where none was found.
pub fn name_or_id(found: Option<String>, id: u32) -> (name: String)
    ensures
        name@ == match found {
            Some(found) => found@,
            None => decimal_text(id as nat),
        },
{
    match found {
        Some(found) => found,
        None => decimal(id as u64),
    }
}

/// The seconds in 183 days.
pub const HALF_YEAR: i64 = 15_811_200;

/// The times that can be shown lie within this many seconds of 1970.
pub const TIME_RANGE: i64 = 8_200_000_000_000;

/// Whether a change at `mtime` is shown with its time of day: it lies
/// less than 183 days before now, and before now.  Now is `now_secs`
/// seconds and `now_nanos` nanoseconds after 1970.
pub open spec fn is_recent(mtime: i64, now_secs: i64, now_nanos: u32) -> bool {
    now_secs - HALF_YEAR < mtime && (mtime < now_secs || (mtime == now_secs && now_nanos > 0))
}

/// The date `mtime` as month, day, hour and minute in the time of
/// Casablanca, as `chrono` formats it with `%b %e %H:%M`; `None` where
/// `chrono` cannot hold the time.
pub uninterp spec fn recent_date(mtime: i64) -> Option<Seq<char>>;

/// The date `mtime` as month, day and year in the time of Casablanca, as
/// `chrono` formats it with `%b %e  %Y`; `None` where `chrono` cannot hold
/// the time.
pub uninterp spec fn old_date(mtime: i64) -> Option<Seq<char>>;

/// `DateTime::from_timestamp`, `DateTime::with_timezone` for
/// `chrono_tz::Africa::Casablanca` and `DateTime::format` with
/// `%b %e %H:%M`: the result depends on `mtime` alone.  Times near the ends
/// of what `chrono` can hold are left out; converting them can panic.
#[verifier::external_body]
fn format_recent(mtime: i64) -> (text: Option<String>)
    requires
        -TIME_RANGE < mtime < TIME_RANGE,
    ensures
        match text {
            Some(text) => recent_date(mtime) == Some(text@),
            None => recent_date(mtime) is None,
        },
{
    match chrono::DateTime::<chrono::Utc>::from_timestamp(mtime, 0) {
        Some(date) => Some(
            date.with_timezone(&chrono_tz::Africa::Casablanca).format("%b %e %H:%M").to_string(),
        ),
        None => None,
    }
}

/// `DateTime::from_timestamp`, `DateTime::with_timezone` for
/// `chrono_tz::Africa::Casablanca` and `DateTime::format` with
/// `%b %e  %Y`: the result depends on `mtime` alone.
#[verifier::external_body]
fn format_old(mtime: i64) -> (text: Option<String>)
    requires
        -TIME_RANGE < mtime < TIME_RANGE,
    ensures
        match text {
            Some(text) => old_date(mtime) == Some(text@),
            None => old_date(mtime) is None,
        },
{
    match chrono::DateTime::<chrono::Utc>::from_timestamp(mtime, 0) {
        Some(date) => Some(
            date.with_timezone(&chrono_tz::Africa::Casablanca).format("%b %e  %Y").to_string(),
        ),
        None => None,
    }
}

/// The date column for a change at `mtime`, now being `now_secs` seconds
/// and `now_nanos` nanoseconds after 1970; `None` for a time that cannot be
/// shown.
pub open spec fn date_column(mtime: i64, now_secs: i64, now_nanos: u32) -> Option<Seq<char>> {
    if !(-TIME_RANGE < mtime < TIME_RANGE) {
        None
    } else if is_recent(mtime, now_secs, now_nanos) {
        recent_date(mtime)
    } else {
        old_date(mtime)
    }
}

/// The view of an optional text.
pub open spec fn option_text(text: Option<String>) -> Option<Seq<char>> {
    match text {
        Some(text) => Some(text@),
        None => None,
    }
}

/// The date column for a change at `mtime`.
pub fn get_date(mtime: i64, now_secs: i64, now_nanos: u32) -> (text: Option<String>)
    ensures
        option_text(text) == date_column(mtime, now_secs, now_nanos),
{
    if mtime <= -TIME_RANGE || mtime >= TIME_RANGE {
        return None;
    }
    let after = (now_secs as i128) - (HALF_YEAR as i128) < (mtime as i128);
    let before = mtime < now_secs || (mtime == now_secs && now_nanos > 0);
    if after && before {
        format_recent(mtime)
    } else {
        format_old(mtime)
    }
}

/// Whether two paths have the same components: both start at the root or
/// neither does, both start with `.` or neither does, and what is left
/// when empty components and `.` are dropped is the same.
pub open spec fn same_path(a: Seq<char>, b: Seq<char>) -> bool {
    &&& crate::cmd::cd::is_absolute(a) == crate::cmd::cd::is_absolute(b)
    &&& starts_with_dot(a) == starts_with_dot(b)
    &&& path_components(a) == path_components(b)
}

/// Whether the first component of a path is `.`.
pub open spec fn starts_with_dot(path: Seq<char>) -> bool {
    path.len() > 0 && path[0] == '.' && (path.len() == 1 || path[1] == '/')
}

/// The name under which an entry is shown.  The operand itself is shown as
/// it was given if it starts at the root; the directory listed and the one
/// above it are shown as `.` and `..`; anything else by its last
/// component.
pub open spec fn entry_name(path: Seq<char>, target: Seq<char>) -> Seq<char> {
    if path == target && crate::cmd::cd::is_absolute(path) {
        path
    } else if path == child(target, seq!['.']) {
        seq!['.']
    } else if same_path(path, child(target, seq!['.', '.'])) {
        seq!['.', '.']
    } else {
        match file_name(path) {
            Some(name) => name,
            None => path,
        }
    }
}

/// Whether the first component of `path` is `.`.
fn leading_dot(path: &Vec<char>) -> (dot: bool)
    ensures
        dot == starts_with_dot(path@),
{
    path.len() > 0 && path[0] == '.' && (path.len() == 1 || path[1] == '/')
}

/// Whether the texts of two lists of strings are the same.
fn same_texts(a: &Vec<String>, b: &Vec<String>) -> (same: bool)
    ensures
        same == (texts(a@) == texts(b@)),
{
    if a.len() != b.len() {
        assert(texts(a@).len() != texts(b@).len());
        return false;
    }
    let mut i: usize = 0;
    while i < a.len()
        invariant
            i <= a.len(),
            a.len() == b.len(),
            forall|k: int| 0 <= k < i ==> a@[k]@ == b@[k]@,
        decreases a.len() - i,
    {
        if a[i] != b[i] {
            assert(texts(a@)[i as int] != texts(b@)[i as int]);
            return false;
        }
        i = i + 1;
    }
    assert(texts(a@) =~= texts(b@));
    true
}

impl Entry {
    /// The entry at `path`, listed under `target_entry`, given what became
    /// of asking the file system about it, and what to tell the user.  An
    /// entry that is missing, or that failed to be examined, is left out; one
    /// for which permission was denied is kept without its details.  The
    /// status of `ls_config` is updated, and the entry keeps a copy of the
    /// configuration as it then stands.
    pub fn new(path: String, ls_config: &mut LsConfig, target_entry: String, lookup: Lookup) -> (result:
        (Option<Entry>, Option<Notice>))
        ensures
            final(ls_config)@ == (LsConfigView {
                status_code: status_after(old(ls_config).status_code, lookup),
                ..old(ls_config)@
            }),
            notice_view(result.1) == notice_for(path@, lookup),
            match lookup {
                Lookup::Found { metadata, sym_path, sym_metadata } => result.0 matches Some(entry)
                    && entry.metadata == Some(metadata) && entry.sym_path == sym_path
                    && entry.sym_metadata == sym_metadata && entry.listed_as is None
                    && entry.path == path && entry.target_entry == target_entry
                    && entry.ls_config@ == final(ls_config)@,
                Lookup::Denied { listed_as } => result.0 matches Some(entry) && entry.metadata
                    is None && entry.sym_path is None && entry.sym_metadata is None
                    && entry.listed_as == listed_as && entry.path == path && entry.target_entry
                    == target_entry && entry.ls_config@ == final(ls_config)@,
                _ => result.0 is None,
            },
    {
        match lookup {
            Lookup::Found { metadata, sym_path, sym_metadata } => {
                let entry = Entry {
                    metadata: Some(metadata),
                    ls_config: ls_config.snapshot(),
                    path,
                    sym_path,
                    sym_metadata,
                    target_entry,
                    listed_as: None,
                };
                (Some(entry), None)
            },
            Lookup::Missing => {
                let mut text = String::from_str("ls: cannot access '");
                text.append(path.as_str());
                text.append("': No such file or directory");
                (None, Some(Notice { text, to_stdout: false }))
            },
            Lookup::Denied { listed_as } => {
                let mut text = String::from_str("ls: cannot access '");
                text.append(path.as_str());
                text.append("': Permission denied");
                ls_config.failed();
                let entry = Entry {
                    metadata: None,
                    ls_config: ls_config.snapshot(),
                    path,
                    sym_path: None,
                    sym_metadata: None,
                    target_entry,
                    listed_as,
                };
                (Some(entry), Some(Notice { text, to_stdout: true }))
            },
            Lookup::Failed(message) => {
                let mut text = String::from_str("Error while Creating the entry: ");
                text.append(message.as_str());
                ls_config.failed();
                (None, Some(Notice { text, to_stdout: false }))
            },
        }
    }

    /// What is shown for what the file system reports.
    pub fn get_entry_type(metadata: &Stat) -> (traits: Traits)
        ensures
            traits == entry_type(*metadata),
    {
        match metadata.kind {
            Kind::Directory => (FileType::Directory, 'd', '/'),
            Kind::Symlink => (FileType::Symlink, 'l', '@'),
            Kind::BlockDevice => (FileType::BlockDevice, 'b', ' '),
            Kind::CharDevice => (FileType::CharDevice, 'c', ' '),
            Kind::Fifo => (FileType::NamedPipe, 'p', '|'),
            Kind::Socket => (FileType::Socket, 's', '='),
            Kind::File => {
                if metadata.mode & 0o111 != 0 {
                    (FileType::Executable, '-', '*')
                } else {
                    (FileType::Regular, '-', ' ')
                }
            },
            Kind::Other => (FileType::Regular, '-', ' '),
        }
    }

    /// Whether this entry stands for the directory listed or for the one
    /// above it.
    pub open spec fn is_dot_entry(&self) -> bool {
        self.path@ == child(self.target_entry@, seq!['.']) || self.path@ == child(
            self.target_entry@,
            seq!['.', '.'],
        )
    }

    /// What is shown for this entry where the file system could not be
    /// asked about it.
    pub open spec fn pseudo_type(&self) -> Traits {
        if self.is_dot_entry() {
            (FileType::Directory, 'd', '/')
        } else {
            listed_type(self.listed_as)
        }
    }

    /// What is shown for this entry.
    pub open spec fn traits(&self) -> Traits {
        match self.metadata {
            Some(stat) => entry_type(stat),
            None => self.pseudo_type(),
        }
    }

    /// What is shown for this entry where the file system could not be
    /// asked about it.
    pub fn get_pseudo_entry_type(&self) -> (traits: Traits)
        ensures
            traits == self.pseudo_type(),
    {
        let here = child_path(self.target_entry.as_str(), ".");
        let above = child_path(self.target_entry.as_str(), "..");
        proof {
            reveal_strlit(".");
            reveal_strlit("..");
            assert("."@ =~= seq!['.']);
            assert(".."@ =~= seq!['.', '.']);
        }
        if self.path == here || self.path == above {
            return (FileType::Directory, 'd', '/');
        }
        match self.listed_as {
            Some(Kind::Symlink) => (FileType::Symlink, 'l', '@'),
            Some(Kind::Directory) => (FileType::Directory, 'd', '/'),
            Some(Kind::Fifo) => (FileType::NamedPipe, 'p', '|'),
            Some(Kind::Socket) => (FileType::Socket, 's', '='),
            Some(Kind::CharDevice) => (FileType::Socket, 'c', ' '),
            Some(Kind::BlockDevice) => (FileType::Socket, 'b', ' '),
            Some(Kind::File) => (FileType::Regular, '-', ' '),
            _ => (FileType::Regular, '?', '?'),
        }
    }

    /// What is shown for this entry.
    fn get_traits(&self) -> (traits: Traits)
        ensures
            traits == self.traits(),
    {
        match &self.metadata {
            Some(stat) => Entry::get_entry_type(stat),
            None => self.get_pseudo_entry_type(),
        }
    }

    /// The style of the name: red for a link that leads nowhere, else the
    /// style of the kind of entry.
    pub open spec fn name_style(&self) -> ColorStyle {
        if self.traits().0 == FileType::Symlink && self.sym_metadata is None {
            ColorStyle::BoldRed
        } else {
            style_of(self.traits().0)
        }
    }

    /// The style of the name.
    pub fn color_name_style(&self) -> (style: ColorStyle)
        ensures
            style == self.name_style(),
    {
        let kind = self.get_traits().0;
        match kind {
            FileType::Symlink => {
                if self.sym_metadata.is_none() {
                    return ColorStyle::BoldRed;
                }
            },
            _ => {},
        }
        Entry::style_for(kind)
    }

    /// The style in which a kind of entry is shown.
    fn style_for(kind: FileType) -> (style: ColorStyle)
        ensures
            style == style_of(kind),
    {
        match kind {
            FileType::Executable => ColorStyle::BoldGreen,
            FileType::Directory => ColorStyle::BlueBold,
            FileType::BlockDevice => ColorStyle::BoldYellow,
            FileType::CharDevice => ColorStyle::BoldYellow,
            FileType::NamedPipe => ColorStyle::BoldYellow,
            FileType::Symlink => ColorStyle::CyanBold,
            FileType::Socket => ColorStyle::BoldMagenta,
            FileType::Regular => ColorStyle::BrightWhite,
        }
    }

    /// The style in which what the file system reports is shown.
    pub fn color_style_for_metadata(metadata: &Stat) -> (style: ColorStyle)
        ensures
            style == style_of(entry_type(*metadata).0),
    {
        Entry::style_for(Entry::get_entry_type(metadata).0)
    }

    /// The two size columns; nothing and a question mark where the file
    /// system could not be asked.
    pub open spec fn sizes(&self) -> (Seq<char>, Seq<char>) {
        match self.metadata {
            Some(stat) => size_columns(stat),
            None => (Seq::empty(), seq!['?']),
        }
    }

    /// The two size columns.
    pub fn get_size(&self) -> (columns: (String, String))
        ensures
            (columns.0@, columns.1@) == self.sizes(),
    {
        match &self.metadata {
            None => (String::new(), string_of_char('?')),
            Some(stat) => {
                match stat.kind {
                    Kind::CharDevice | Kind::BlockDevice => {
                        let mut major = decimal(device_major(stat.rdev) as u64);
                        major.push(',');
                        let minor = decimal(device_minor(stat.rdev) as u64);
                        (major, minor)
                    },
                    _ => (String::new(), decimal(stat.size)),
                }
            },
        }
    }

    /// The name under which the entry is shown.
    pub fn get_entry_name(&self) -> (name: String)
        ensures
            name@ == entry_name(self.path@, self.target_entry@),
    {
        let path = chars_of(self.path.as_str());
        let absolute = path.len() > 0 && path[0] == '/';
        if self.path == self.target_entry && absolute {
            return self.path.clone();
        }
        proof {
            reveal_strlit(".");
            reveal_strlit("..");
            assert("."@ =~= seq!['.']);
            assert(".."@ =~= seq!['.', '.']);
        }
        let here = child_path(self.target_entry.as_str(), ".");
        if self.path == here {
            return string_of_char('.');
        }
        let above = child_path(self.target_entry.as_str(), "..");
        let above_chars = chars_of(above.as_str());
        let above_absolute = above_chars.len() > 0 && above_chars[0] == '/';
        if absolute == above_absolute && leading_dot(&path) == leading_dot(&above_chars)
            && same_texts(
            &crate::cmd::cd::components_of(&path),
            &crate::cmd::cd::components_of(&above_chars),
        ) {
            let mut name = string_of_char('.');
            name.push('.');
            assert(name@ =~= seq!['.', '.']);
            return name;
        }
        match file_name_of(self.path.as_str()) {
            Some(name) => name,
            None => self.path.clone(),
        }
    }

    /// The permissions column: the letter of the kind alone where the file
    /// system could not be asked.
    pub open spec fn permissions(&self) -> Seq<char> {
        match self.metadata {
            Some(stat) => permission_text(entry_type(stat).1, stat.mode),
            None => seq![self.pseudo_type().1],
        }
    }

    /// The permissions column.
    pub fn get_permissions(&self) -> (text: String)
        ensures
            text@ == self.permissions(),
    {
        match &self.metadata {
            None => string_of_char(self.get_pseudo_entry_type().1),
            Some(stat) => {
                let symbol = Entry::get_entry_type(stat).1;
                let mode = stat.mode;
                let mut text = string_of_char(symbol);
                Entry::push_class(&mut text, mode, 0o400, 0o200, 0o100, 0o4000, 's', 'S');
                Entry::push_class(&mut text, mode, 0o040, 0o020, 0o010, 0o2000, 's', 'S');
                Entry::push_class(&mut text, mode, 0o004, 0o002, 0o001, 0o1000, 't', 'T');
                assert(text@ =~= permission_text(symbol, mode));
                text
            },
        }
    }

    /// Adds the three letters of one class of users to `text`.
    fn push_class(
        text: &mut String,
        mode: u32,
        read: u32,
        write: u32,
        exec: u32,
        special: u32,
        set: char,
        unset: char,
    )
        ensures
            final(text)@ == old(text)@ + class_letters(mode, read, write, exec, special, set, unset),
    {
        text.push(
            if mode & read != 0 {
                'r'
            } else {
                '-'
            },
        );
        text.push(
            if mode & write != 0 {
                'w'
            } else {
                '-'
            },
        );
        text.push(
            if mode & exec != 0 {
                if mode & special != 0 {
                    set
                } else {
                    'x'
                }
            } else {
                if mode & special != 0 {
                    unset
                } else {
                    '-'
                }
            },
        );
        assert(text@ =~= old(text)@ + class_letters(mode, read, write, exec, special, set, unset));
    }

    /// The mark that `-F` puts after the name.  In the long format a link
    /// is marked as what it leads to, and not at all if it leads nowhere.
    pub open spec fn indicator(&self) -> char {
        match self.metadata {
            None => self.pseudo_type().2,
            Some(stat) => if self.ls_config.l_flag_set && entry_type(stat).0 == FileType::Symlink {
                match self.sym_metadata {
                    Some(target) => entry_type(target).2,
                    None => ' ',
                }
            } else {
                entry_type(stat).2
            },
        }
    }

    /// The mark that `-F` puts after the name.
    pub fn append_file_type_indicator(&self) -> (mark: char)
        ensures
            mark == self.indicator(),
    {
        match &self.metadata {
            None => self.get_pseudo_entry_type().2,
            Some(stat) => {
                let traits = Entry::get_entry_type(stat);
                if self.ls_config.l_flag_set {
                    match traits.0 {
                        FileType::Symlink => {
                            return match &self.sym_metadata {
                                Some(target) => Entry::get_entry_type(target).2,
                                None => ' ',
                            };
                        },
                        _ => {},
                    }
                }
                traits.2
            },
        }
    }

    /// The name of the owner: a question mark where the file system could
    /// not be asked, else the name that the system has for the owner, or
    /// the owner's number.
    pub fn get_user_name(&self) -> (name: String)
        ensures
            self.metadata is None ==> name@ == seq!['?'],
    {
        match &self.metadata {
            None => string_of_char('?'),
            Some(stat) => name_or_id(lookup_user(stat.uid), stat.uid),
        }
    }

    /// The name of the group: a question mark where the file system could
    /// not be asked, else the name that the system has for the group, or
    /// the group's number.
    pub fn get_group_name(&self) -> (name: String)
        ensures
            self.metadata is None ==> name@ == seq!['?'],
    {
        match &self.metadata {
            None => string_of_char('?'),
            Some(stat) => name_or_id(lookup_group(stat.gid), stat.gid),
        }
    }

    /// The last column: the name as it is shown, then, in the long format,
    /// an arrow and where the entry leads, then the mark if `-F` is given.
    pub open spec fn name_column(&self, shown: Seq<char>, leads_to: Seq<char>) -> Seq<char> {
        let with_target = if self.metadata is Some && self.ls_config.l_flag_set && self.sym_path
            is Some {
            shown + seq![' ', '-', '>', ' '] + leads_to
        } else {
            shown
        };
        if self.ls_config.f_flag_set {
            with_target.push(self.indicator())
        } else {
            with_target
        }
    }

    /// The columns of the entry.  Without `-l` there is the name alone.
    /// With it there are eight: permissions, links, owner, group, the two
    /// size columns, date and name.  Where the file system could not be
    /// asked, question marks stand for what is not known, and the two size
    /// columns change places.
    ///
    /// `shown` is the name and `leads_to` the target of the link as the
    /// terminal shows them, `owner` and `group` are the names found, and
    /// `date` is the date column.
    pub open spec fn columns(
        &self,
        shown: Seq<char>,
        leads_to: Seq<char>,
        owner: Seq<char>,
        group: Seq<char>,
        date: Seq<char>,
    ) -> Seq<Seq<char>> {
        let name = self.name_column(shown, leads_to);
        if !self.ls_config.l_flag_set {
            seq![name]
        } else {
            match self.metadata {
                Some(stat) => seq![
                    self.permissions(),
                    decimal_text(stat.nlink as nat),
                    owner,
                    group,
                    self.sizes().0,
                    self.sizes().1,
                    date,
                    name,
                ],
                None => seq![
                    self.permissions(),
                    seq!['?'],
                    seq!['?'],
                    seq!['?'],
                    self.sizes().1,
                    self.sizes().0,
                    "        ?"@,
                    name,
                ],
            }
        }
    }

    /// How many columns the entry has.
    pub open spec fn width(&self) -> int {
        if self.ls_config.l_flag_set {
            8
        } else {
            1
        }
    }

    /// The columns of the entry, from the texts that come from outside.
    pub fn row(&self, shown: String, leads_to: &str, owner: String, group: String, date: String) -> (row:
        Vec<String>)
        ensures
            texts(row@) == self.columns(shown@, leads_to@, owner@, group@, date@),
            row@.len() == self.width(),
    {
        let mut name = shown;
        if self.metadata.is_some() && self.ls_config.l_flag_set && self.sym_path.is_some() {
            name.push(' ');
            name.push('-');
            name.push('>');
            name.push(' ');
            name.append(leads_to);
            assert(name@ =~= shown@ + seq![' ', '-', '>', ' '] + leads_to@);
        }
        if self.ls_config.f_flag_set {
            name.push(self.append_file_type_indicator());
        }
        assert(name@ == self.name_column(shown@, leads_to@));
        let mut row: Vec<String> = Vec::new();
        if !self.ls_config.l_flag_set {
            row.push(name);
            assert(texts(row@) =~= self.columns(shown@, leads_to@, owner@, group@, date@));
            return row;
        }
        let sizes = self.get_size();
        row.push(self.get_permissions());
        match &self.metadata {
            Some(stat) => {
                row.push(decimal(stat.nlink));
                row.push(owner);
                row.push(group);
                row.push(sizes.0);
                row.push(sizes.1);
                row.push(date);
            },
            None => {
                row.push(string_of_char('?'));
                row.push(string_of_char('?'));
                row.push(string_of_char('?'));
                row.push(sizes.1);
                row.push(sizes.0);
                row.push(String::from_str("        ?"));
            },
        }
        row.push(name);
        assert(texts(row@) =~= self.columns(shown@, leads_to@, owner@, group@, date@));
        row
    }

    /// Whether the date of the entry can be shown, where it is shown at all.
    pub open spec fn has_date(&self, now_secs: i64, now_nanos: u32) -> bool {
        match self.metadata {
            Some(stat) => self.ls_config.l_flag_set ==> date_column(stat.mtime, now_secs, now_nanos)
                is Some,
            None => true,
        }
    }

    /// The date column of the entry; empty where no date is shown.
    pub open spec fn date(&self, now_secs: i64, now_nanos: u32) -> Seq<char> {
        match self.metadata {
            Some(stat) => if self.ls_config.l_flag_set {
                match date_column(stat.mtime, now_secs, now_nanos) {
                    Some(date) => date,
                    None => Seq::empty(),
                }
            } else {
                Seq::empty()
            },
            None => Seq::empty(),
        }
    }

    /// Whether `row` holds the columns of the entry, for some way in which
    /// the terminal shows the names and for some names of owner and group.
    pub open spec fn shows(&self, row: Seq<Seq<char>>, now_secs: i64, now_nanos: u32) -> bool {
        exists|shown: Seq<char>, leads_to: Seq<char>, owner: Seq<char>, group: Seq<char>|
            row == #[trigger] self.columns(
                shown,
                leads_to,
                owner,
                group,
                self.date(now_secs, now_nanos),
            )
    }

    /// The columns of an entry that the file system reports on, now being
    /// `now_secs` seconds and `now_nanos` nanoseconds after 1970.  `None`
    /// where the time of its last change is to be shown and cannot be.
    pub fn as_array(&self, now_secs: i64, now_nanos: u32) -> (row: Option<Vec<String>>)
        requires
            self.metadata is Some,
        ensures
            row is Some <==> self.has_date(now_secs, now_nanos),
            row matches Some(row) ==> row@.len() == self.width() && self.shows(
                texts(row@),
                now_secs,
                now_nanos,
            ),
    {
        let shown = apply_color(self.get_entry_name().as_str(), self.color_name_style());
        let leads_to = match &self.sym_path {
            Some(target) => {
                let style = match &self.sym_metadata {
                    Some(stat) => Entry::color_style_for_metadata(stat),
                    None => ColorStyle::BoldRed,
                };
                apply_color(target.as_str(), style)
            },
            None => String::new(),
        };
        let mtime = match &self.metadata {
            Some(stat) => stat.mtime,
            None => 0,
        };
        let date = if self.ls_config.l_flag_set {
            match get_date(mtime, now_secs, now_nanos) {
                Some(date) => date,
                None => {
                    return None;
                },
            }
        } else {
            String::new()
        };
        let owner = self.get_user_name();
        let group = self.get_group_name();
        let row = self.row(shown, leads_to.as_str(), owner, group, date);
        assert(date@ == self.date(now_secs, now_nanos));
        assert(texts(row@) == self.columns(
            shown@,
            leads_to@,
            owner@,
            group@,
            self.date(now_secs, now_nanos),
        ));
        Some(row)
    }

    /// The columns of an entry that the file system could not be asked
    /// about.
    pub fn as_pseudo_array(&self) -> (row: Vec<String>)
        requires
            self.metadata is None,
        ensures
            row@.len() == self.width(),
            forall|now_secs: i64, now_nanos: u32| self.shows(texts(row@), now_secs, now_nanos),
    {
        let shown = apply_color(self.get_entry_name().as_str(), self.color_name_style());
        let owner = self.get_user_name();
        let group = self.get_group_name();
        let row = self.row(shown, "", owner, group, String::new());
        proof {
            reveal_strlit("");
            assert(""@ =~= Seq::<char>::empty());
            assert forall|now_secs: i64, now_nanos: u32|
                self.shows(texts(row@), now_secs, now_nanos) by {
                assert(texts(row@) == self.columns(
                    shown@,
                    Seq::empty(),
                    owner@,
                    group@,
                    self.date(now_secs, now_nanos),
                ));
            }
        }
        row
    }

    /// The columns of the entry, whichever way they are come by.  `None`
    /// where the time of its last change is to be shown and cannot be.
    pub fn handle_entry(&self, now_secs: i64, now_nanos: u32) -> (row: Option<Vec<String>>)
        ensures
            row is Some <==> self.has_date(now_secs, now_nanos),
            row matches Some(row) ==> row@.len() == self.width() && self.shows(
                texts(row@),
                now_secs,
                now_nanos,
            ),
    {
        if self.metadata.is_some() {
            return self.as_array(now_secs, now_nanos);
        }
        Some(self.as_pseudo_array())
    }
}

} // verus!
