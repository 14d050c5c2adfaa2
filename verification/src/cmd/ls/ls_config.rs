//! The options and operands of `ls`, and what becomes of the operands once
//! the file system has been asked about them.

use vstd::prelude::*;
use vstd::string::*;
use crate::cmd::ls::utils::{
    lower_keyed,
    names_of,
    pair_views,
    sort_lower,
    sort_pairs,
    stable_sort,
    values_of,
};
use crate::text::{chars_of, copy_strings, string_of_char, texts};

verus! {

/// What `ls` was asked to do, and how it is getting on.
#[derive(Clone, Debug, PartialEq, Eq)]
pub struct LsConfig {
    /// `-a`: entries whose names start with a dot are listed too.
    pub a_flag_set: bool,
    /// `-l`: the long format.
    pub l_flag_set: bool,
    /// `-F`: a mark after each name tells what kind of entry it is.
    pub f_flag_set: bool,
    /// The operands.
    pub target_paths: Vec<String>,
    /// The operands that are listed as they are.
    pub target_files: Vec<String>,
    /// The operands whose contents are listed.
    pub target_dirs: Vec<String>,
    /// The exit status so far.
    pub status_code: i32,
    /// The arguments that start with a dash.
    pub flags: Vec<String>,
    /// How many operands were given.
    pub num_args: usize,
}

/// The mathematical value of an [`LsConfig`].
pub ghost struct LsConfigView {
    pub a_flag_set: bool,
    pub l_flag_set: bool,
    pub f_flag_set: bool,
    pub target_paths: Seq<Seq<char>>,
    pub target_files: Seq<Seq<char>>,
    pub target_dirs: Seq<Seq<char>>,
    pub status_code: i32,
    pub flags: Seq<Seq<char>>,
    pub num_args: usize,
}

impl View for LsConfig {
    type V = LsConfigView;

    open spec fn view(&self) -> LsConfigView {
        LsConfigView {
            a_flag_set: self.a_flag_set,
            l_flag_set: self.l_flag_set,
            f_flag_set: self.f_flag_set,
            target_paths: texts(self.target_paths@),
            target_files: texts(self.target_files@),
            target_dirs: texts(self.target_dirs@),
            status_code: self.status_code,
            flags: texts(self.flags@),
            num_args: self.num_args,
        }
    }
}

/// Whether an argument starts with a dash.
pub open spec fn is_flag(arg: Seq<char>) -> bool {
    arg.len() > 0 && arg[0] == '-'
}

/// Those of `args` that are flags if `wanted`, those that are not if not.
pub open spec fn select(args: Seq<Seq<char>>, wanted: bool) -> Seq<Seq<char>>
    decreases args.len(),
{
    if args.len() == 0 {
        Seq::empty()
    } else if is_flag(args.last()) == wanted {
        select(args.drop_last(), wanted).push(args.last())
    } else {
        select(args.drop_last(), wanted)
    }
}

/// Whether `letter` is an option that `ls` knows.
pub open spec fn known(letter: char) -> bool {
    letter == 'a' || letter == 'l' || letter == 'F'
}

/// Whether `letter` stands in `flag` at position `i` or later.
pub open spec fn letter_in(flag: Seq<char>, letter: char, i: int) -> bool
    decreases flag.len() - i,
{
    if 0 <= i < flag.len() {
        flag[i] == letter || letter_in(flag, letter, i + 1)
    } else {
        false
    }
}

/// Whether `letter` stands after the dash of one of the first `k` flags.
pub open spec fn letter_given(flags: Seq<Seq<char>>, letter: char, k: int) -> bool
    decreases k,
{
    if 0 < k <= flags.len() {
        letter_given(flags, letter, k - 1) || letter_in(flags[k - 1], letter, 1)
    } else {
        false
    }
}

/// The first letter of `flag` at position `i` or later that `ls` does not
/// know.
pub open spec fn unknown_in(flag: Seq<char>, i: int) -> Option<char>
    decreases flag.len() - i,
{
    if 0 <= i < flag.len() {
        if known(flag[i]) {
            unknown_in(flag, i + 1)
        } else {
            Some(flag[i])
        }
    } else {
        None
    }
}

/// The first letter after a dash, in the flags from `k` on, that `ls` does
/// not know.
pub open spec fn unknown_from(flags: Seq<Seq<char>>, k: int) -> Option<char>
    decreases flags.len() - k,
{
    if 0 <= k < flags.len() {
        match unknown_in(flags[k], 1) {
            Some(letter) => Some(letter),
            None => unknown_from(flags, k + 1),
        }
    } else {
        None
    }
}

/// The complaint about an option that `ls` does not know.
pub open spec fn invalid_option_text(letter: char) -> Seq<char> {
    "ls: invalid option -- '"@ + seq![letter] + "'"@
}

/// What the file system says of an operand, links not followed.
#[derive(Clone, Copy, Debug, PartialEq, Eq, Structural)]
pub struct Found {
    /// It is a directory.
    pub is_dir: bool,
    /// It is a regular file.
    pub is_file: bool,
    /// It is a symbolic link.
    pub is_symlink: bool,
    /// What it leads to, links followed, cannot be examined.
    pub broken: bool,
}

/// What became of asking the file system about an operand.
#[derive(Clone, Debug, PartialEq, Eq)]
pub enum Probe {
    /// There is nothing of that name.
    Missing,
    /// It could not be examined; this is the error as it is displayed.
    Failed(String),
    /// It is there.
    Found(Found),
}

/// Whether the contents of an operand are listed: it is a directory, or
/// it is a link that leads somewhere and neither `-l` nor `-F` is given.
pub open spec fn lists_contents(found: Found, l_flag: bool, f_flag: bool) -> bool {
    (found.is_dir && !found.is_symlink) || (found.is_symlink && !found.broken && !l_flag
        && !f_flag)
}

/// Whether an operand is listed as it is: it is a regular file, a link
/// with `-l` or `-F` given, or something that leads nowhere.
pub open spec fn lists_itself(found: Found, l_flag: bool, f_flag: bool) -> bool {
    found.is_file || (found.is_symlink && (l_flag || f_flag)) || found.broken
}

/// The complaint about an operand that is not there.
pub open spec fn cannot_access_text(path: Seq<char>) -> Seq<char> {
    "ls: cannot access '"@ + path + "': No such file or directory"@
}

/// What is known once the first `k` operands have been looked at.
pub ghost struct Sorting {
    pub status: i32,
    pub complaints: Seq<Seq<char>>,
    pub kept: Seq<Seq<char>>,
    pub dirs: Seq<Seq<char>>,
    pub files: Seq<Seq<char>>,
}

/// What is known once the first `k` of `paths` have been looked at, `probes`
/// being what the file system says of each.  A missing operand makes the
/// status 2; one that cannot be examined makes it 1 unless it is 2.
pub open spec fn sorting(
    paths: Seq<Seq<char>>,
    probes: Seq<Probe>,
    l_flag: bool,
    f_flag: bool,
    status: i32,
    k: int,
) -> Sorting
    decreases k,
{
    if 0 < k <= paths.len() && k <= probes.len() {
        let before = sorting(paths, probes, l_flag, f_flag, status, k - 1);
        let path = paths[k - 1];
        match probes[k - 1] {
            Probe::Missing => Sorting {
                status: 2,
                complaints: before.complaints.push(cannot_access_text(path)),
                ..before
            },
            Probe::Failed(message) => Sorting {
                status: if before.status != 2 {
                    1
                } else {
                    2
                },
                complaints: before.complaints.push(message@),
                ..before
            },
            Probe::Found(found) => Sorting {
                kept: before.kept.push(path),
                dirs: if lists_contents(found, l_flag, f_flag) {
                    before.dirs.push(path)
                } else {
                    before.dirs
                },
                files: if lists_itself(found, l_flag, f_flag) {
                    before.files.push(path)
                } else {
                    before.files
                },
                ..before
            },
        }
    } else {
        Sorting {
            status,
            complaints: Seq::empty(),
            kept: Seq::empty(),
            dirs: Seq::empty(),
            files: Seq::empty(),
        }
    }
}

/// `text` in lower case, as `str::to_lowercase` gives it.
pub uninterp spec fn lowercase(text: Seq<char>) -> Seq<char>;

/// `str::to_lowercase` returns the lower case of a text as Unicode defines
/// it; the result depends on the text alone.
#[verifier::external_body]
fn to_lowercase(text: &str) -> (low: String)
    ensures
        low@ == lowercase(text@),
{
    text.to_lowercase()
}

/// Whether a name is hidden: whether it starts with a dot.
pub open spec fn hidden(name: Seq<char>) -> bool {
    name.len() > 0 && name[0] == '.'
}

/// The key by which the entries of a directory are ordered: the name
/// without the dot at its start, if it has one, in lower case.
pub open spec fn entry_key(name: Seq<char>) -> Seq<char> {
    if hidden(name) {
        lowercase(name.skip(1))
    } else {
        lowercase(name)
    }
}

/// The names `names`, each with its entry key.
pub open spec fn entry_keyed(names: Seq<Seq<char>>) -> Seq<(Seq<char>, Seq<char>)> {
    Seq::new(names.len(), |i: int| (entry_key(names[i]), names[i]))
}

/// Those of `names` that are not hidden.
pub open spec fn visible(names: Seq<Seq<char>>) -> Seq<Seq<char>>
    decreases names.len(),
{
    if names.len() == 0 {
        Seq::empty()
    } else if hidden(names.last()) {
        visible(names.drop_last())
    } else {
        visible(names.drop_last()).push(names.last())
    }
}

/// The entries of a directory as they are listed: in the order of their
/// entry keys; with `-a`, after `.` and `..`; without, the hidden ones left
/// out.
pub open spec fn listed(names: Seq<Seq<char>>, a_flag: bool) -> Seq<Seq<char>> {
    let sorted = values_of(stable_sort(entry_keyed(names)));
    if a_flag {
        seq![seq!['.'], seq!['.', '.']] + sorted
    } else {
        visible(sorted)
    }
}

/// The entries of a directory as they are listed.
pub fn order_entries(names: &Vec<String>, a_flag: bool) -> (list: Vec<String>)
    ensures
        texts(list@) == listed(texts(names@), a_flag),
{
    let ghost all = texts(names@);
    let mut pairs: Vec<(Vec<char>, String)> = Vec::new();
    let mut i: usize = 0;
    while i < names.len()
        invariant
            i <= names.len(),
            all == texts(names@),
            pairs@.len() == i,
            forall|k: int|
                0 <= k < i ==> (#[trigger] pairs@[k]).0@ == entry_key(all[k]) && pairs@[k].1@
                    == all[k],
        decreases names.len() - i,
    {
        let chars = chars_of(names[i].as_str());
        let key = if chars.len() > 0 && chars[0] == '.' {
            let rest = crate::text::substring(&chars, 1, chars.len());
            assert(chars@.subrange(1, chars.len() as int) == chars@.skip(1));
            to_lowercase(rest.as_str())
        } else {
            to_lowercase(names[i].as_str())
        };
        pairs.push((chars_of(key.as_str()), names[i].clone()));
        i = i + 1;
    }
    assert(pair_views(pairs@) =~= entry_keyed(all));
    let sorted = names_of(sort_pairs(pairs));
    let ghost in_order = texts(sorted@);
    let mut list: Vec<String> = Vec::new();
    if a_flag {
        list.push(string_of_char('.'));
        let mut up = string_of_char('.');
        up.push('.');
        assert(up@ =~= seq!['.', '.']);
        list.push(up);
        let mut j: usize = 0;
        while j < sorted.len()
            invariant
                j <= sorted.len(),
                in_order == texts(sorted@),
                texts(list@) == seq![seq!['.'], seq!['.', '.']] + in_order.take(j as int),
            decreases sorted.len() - j,
        {
            let ghost done = texts(list@);
            list.push(sorted[j].clone());
            assert(texts(list@) =~= done.push(in_order[j as int]));
            assert(in_order.take(j + 1) =~= in_order.take(j as int).push(in_order[j as int]));
            j = j + 1;
        }
        assert(in_order.take(j as int) =~= in_order);
    } else {
        let mut j: usize = 0;
        assert(in_order.take(0) =~= Seq::<Seq<char>>::empty());
        assert(texts(list@) =~= Seq::<Seq<char>>::empty());
        while j < sorted.len()
            invariant
                j <= sorted.len(),
                in_order == texts(sorted@),
                texts(list@) == visible(in_order.take(j as int)),
            decreases sorted.len() - j,
        {
            let ghost done = texts(list@);
            assert(in_order.take(j + 1).drop_last() =~= in_order.take(j as int));
            assert(in_order.take(j + 1).last() == sorted@[j as int]@);
            let chars = chars_of(sorted[j].as_str());
            if !(chars.len() > 0 && chars[0] == '.') {
                list.push(sorted[j].clone());
                assert(texts(list@) =~= done.push(sorted@[j as int]@));
            }
            j = j + 1;
        }
        assert(in_order.take(j as int) =~= in_order);
    }
    list
}

impl LsConfig {
    /// Splits `args` into flags, which start with a dash, and operands.
    /// No flag is read yet.
    pub fn new(args: &Vec<String>) -> (config: LsConfig)
        ensures
            config@ == (LsConfigView {
                a_flag_set: false,
                l_flag_set: false,
                f_flag_set: false,
                target_paths: select(texts(args@), false),
                target_files: Seq::empty(),
                target_dirs: Seq::empty(),
                status_code: 0,
                flags: select(texts(args@), true),
                num_args: select(texts(args@), false).len() as usize,
            }),
    {
        let ghost all = texts(args@);
        let mut flags: Vec<String> = Vec::new();
        let mut targets: Vec<String> = Vec::new();
        let mut i: usize = 0;
        assert(all.take(0) =~= Seq::<Seq<char>>::empty());
        assert(texts(flags@) =~= Seq::<Seq<char>>::empty());
        assert(texts(targets@) =~= Seq::<Seq<char>>::empty());
        while i < args.len()
            invariant
                i <= args.len(),
                all == texts(args@),
                texts(flags@) == select(all.take(i as int), true),
                texts(targets@) == select(all.take(i as int), false),
            decreases args.len() - i,
        {
            let ghost flags_done = texts(flags@);
            let ghost targets_done = texts(targets@);
            assert(all.take(i + 1).drop_last() =~= all.take(i as int));
            assert(all.take(i + 1).last() == args@[i as int]@);
            let chars = chars_of(args[i].as_str());
            if chars.len() > 0 && chars[0] == '-' {
                flags.push(args[i].clone());
                assert(texts(flags@) =~= flags_done.push(args@[i as int]@));
            } else {
                targets.push(args[i].clone());
                assert(texts(targets@) =~= targets_done.push(args@[i as int]@));
            }
            i = i + 1;
        }
        assert(all.take(i as int) =~= all);
        let num_args = targets.len();
        let config = LsConfig {
            a_flag_set: false,
            l_flag_set: false,
            f_flag_set: false,
            target_paths: targets,
            target_files: Vec::new(),
            target_dirs: Vec::new(),
            status_code: 0,
            flags,
            num_args,
        };
        assert(config@.target_files =~= Seq::empty());
        assert(config@.target_dirs =~= Seq::empty());
        config
    }

    /// Reads the flags.  Each letter after the dash of a flag must be one
    /// of `a`, `l` and `F`; the first that is not is complained about, and
    /// nothing is changed.  Where no operand was given, the current
    /// directory becomes the operand.
    pub fn parse(&mut self) -> (result: Result<(), String>)
        ensures
            match unknown_from(old(self)@.flags, 0) {
                Some(letter) => result is Err && result->Err_0@ == invalid_option_text(letter)
                    && *final(self) == *old(self),
                None => result is Ok && final(self)@ == (LsConfigView {
                    a_flag_set: old(self).a_flag_set || letter_given(
                        old(self)@.flags,
                        'a',
                        old(self)@.flags.len() as int,
                    ),
                    l_flag_set: old(self).l_flag_set || letter_given(
                        old(self)@.flags,
                        'l',
                        old(self)@.flags.len() as int,
                    ),
                    f_flag_set: old(self).f_flag_set || letter_given(
                        old(self)@.flags,
                        'F',
                        old(self)@.flags.len() as int,
                    ),
                    target_paths: if old(self)@.target_paths.len() == 0 {
                        seq![seq!['.']]
                    } else {
                        old(self)@.target_paths
                    },
                    ..old(self)@
                }),
            },
    {
        let ghost flags = self@.flags;
        let mut a = self.a_flag_set;
        let mut l = self.l_flag_set;
        let mut f = self.f_flag_set;
        let mut k: usize = 0;
        while k < self.flags.len()
            invariant
                k <= self.flags.len(),
                *self == *old(self),
                flags == self@.flags,
                unknown_from(flags, 0) == unknown_from(flags, k as int),
                a == (self.a_flag_set || letter_given(flags, 'a', k as int)),
                l == (self.l_flag_set || letter_given(flags, 'l', k as int)),
                f == (self.f_flag_set || letter_given(flags, 'F', k as int)),
            decreases self.flags.len() - k,
        {
            let chars = chars_of(self.flags[k].as_str());
            assert(flags[k as int] == chars@);
            let mut i: usize = 1;
            let ghost a0 = a;
            let ghost l0 = l;
            let ghost f0 = f;
            let mut seen_a = false;
            let mut seen_l = false;
            let mut seen_f = false;
            while i < chars.len()
                invariant
                    1 <= i,
                    *self == *old(self),
                    flags == self@.flags,
                    k < self.flags.len(),
                    flags[k as int] == chars@,
                    unknown_from(flags, 0) == unknown_from(flags, k as int),
                    unknown_in(chars@, 1) == unknown_in(chars@, i as int),
                    letter_in(chars@, 'a', 1) == (seen_a || letter_in(chars@, 'a', i as int)),
                    letter_in(chars@, 'l', 1) == (seen_l || letter_in(chars@, 'l', i as int)),
                    letter_in(chars@, 'F', 1) == (seen_f || letter_in(chars@, 'F', i as int)),
                decreases chars.len() - i,
            {
                let c = chars[i];
                if c == 'a' {
                    seen_a = true;
                } else if c == 'l' {
                    seen_l = true;
                } else if c == 'F' {
                    seen_f = true;
                } else {
                    let mut message = String::from_str("ls: invalid option -- '");
                    message.append(string_of_char(c).as_str());
                    message.append("'");
                    return Err(message);
                }
                i = i + 1;
            }
            a = a || seen_a;
            l = l || seen_l;
            f = f || seen_f;
            k = k + 1;
        }
        self.a_flag_set = a;
        self.l_flag_set = l;
        self.f_flag_set = f;
        if self.target_paths.len() == 0 {
            self.target_paths.push(string_of_char('.'));
            assert(self@.target_paths =~= seq![seq!['.']]);
        }
        Ok(())
    }

    /// Sorts the operands by what the file system says of them.  `probes`
    /// holds, for each operand in turn, what became of asking.  Operands that
    /// are not there are dropped; the others are split into those whose
    /// contents are listed and those that are listed as they are, each group
    /// ordered without regard to the case of ASCII letters.  The complaints
    /// for standard error are returned.
    pub fn extract_valid_entries(&mut self, probes: &Vec<Probe>) -> (complaints: Vec<String>)
        requires
            probes.len() == old(self).target_paths.len(),
        ensures
            ({
                let outcome = sorting(
                    old(self)@.target_paths,
                    probes@,
                    old(self).l_flag_set,
                    old(self).f_flag_set,
                    old(self).status_code,
                    probes.len() as int,
                );
                &&& texts(complaints@) == outcome.complaints
                &&& final(self)@ == (LsConfigView {
                    status_code: outcome.status,
                    target_paths: outcome.kept,
                    target_dirs: values_of(stable_sort(lower_keyed(outcome.dirs))),
                    target_files: values_of(stable_sort(lower_keyed(outcome.files))),
                    ..old(self)@
                })
            }),
    {
        let ghost paths = self@.target_paths;
        let ghost start = self.status_code;
        let l_flag = self.l_flag_set;
        let f_flag = self.f_flag_set;
        let mut status = self.status_code;
        let mut complaints: Vec<String> = Vec::new();
        let mut kept: Vec<String> = Vec::new();
        let mut dirs: Vec<String> = Vec::new();
        let mut files: Vec<String> = Vec::new();
        let mut k: usize = 0;
        assert(texts(complaints@) =~= Seq::<Seq<char>>::empty());
        assert(texts(kept@) =~= Seq::<Seq<char>>::empty());
        assert(texts(dirs@) =~= Seq::<Seq<char>>::empty());
        assert(texts(files@) =~= Seq::<Seq<char>>::empty());
        while k < probes.len()
            invariant
                k <= probes.len(),
                probes.len() == self.target_paths.len(),
                *self == *old(self),
                paths == self@.target_paths,
                ({
                    let so_far = sorting(paths, probes@, l_flag, f_flag, start, k as int);
                    &&& status == so_far.status
                    &&& texts(complaints@) == so_far.complaints
                    &&& texts(kept@) == so_far.kept
                    &&& texts(dirs@) == so_far.dirs
                    &&& texts(files@) == so_far.files
                }),
            decreases probes.len() - k,
        {
            let ghost complaints_done = texts(complaints@);
            let ghost kept_done = texts(kept@);
            let ghost dirs_done = texts(dirs@);
            let ghost files_done = texts(files@);
            let path = &self.target_paths[k];
            assert(paths[k as int] == path@);
            match &probes[k] {
                Probe::Missing => {
                    status = 2;
                    let mut message = String::from_str("ls: cannot access '");
                    message.append(path.as_str());
                    message.append("': No such file or directory");
                    complaints.push(message);
                    assert(texts(complaints@) =~= complaints_done.push(cannot_access_text(path@)));
                },
                Probe::Failed(message) => {
                    if status != 2 {
                        status = 1;
                    }
                    complaints.push(message.clone());
                    assert(texts(complaints@) =~= complaints_done.push(message@));
                },
                Probe::Found(found) => {
                    kept.push(path.clone());
                    assert(texts(kept@) =~= kept_done.push(path@));
                    if (found.is_dir && !found.is_symlink) || (found.is_symlink && !found.broken
                        && !l_flag && !f_flag) {
                        dirs.push(path.clone());
                        assert(texts(dirs@) =~= dirs_done.push(path@));
                    }
                    if found.is_file || (found.is_symlink && (l_flag || f_flag)) || found.broken {
                        files.push(path.clone());
                        assert(texts(files@) =~= files_done.push(path@));
                    }
                },
            }
            k = k + 1;
        }
        self.status_code = status;
        self.target_paths = kept;
        self.target_dirs = sort_lower(dirs);
        self.target_files = sort_lower(files);
        complaints
    }

    /// A copy of the configuration as it stands.
    pub fn snapshot(&self) -> (copy: LsConfig)
        ensures
            copy@ == self@,
    {
        LsConfig {
            a_flag_set: self.a_flag_set,
            l_flag_set: self.l_flag_set,
            f_flag_set: self.f_flag_set,
            target_paths: copy_strings(&self.target_paths),
            target_files: copy_strings(&self.target_files),
            target_dirs: copy_strings(&self.target_dirs),
            status_code: self.status_code,
            flags: copy_strings(&self.flags),
            num_args: self.num_args,
        }
    }

    /// Records that the directory `target` could not be opened for want of
    /// permission: the status becomes 2.  Returns the complaint.
    pub fn denied(&mut self, target: &str) -> (message: String)
        ensures
            message@ == "ls: cannot open directory '"@ + target@ + "': Permission denied"@,
            final(self)@ == (LsConfigView { status_code: 2, ..old(self)@ }),
    {
        self.status_code = 2;
        let mut message = String::from_str("ls: cannot open directory '");
        message.append(target);
        message.append("': Permission denied");
        message
    }

    /// Records a failure that is no want of permission: the status becomes
    /// 1 unless it is 2.
    pub fn failed(&mut self)
        ensures
            final(self)@ == (LsConfigView {
                status_code: if old(self).status_code != 2 {
                    1
                } else {
                    2
                },
                ..old(self)@
            }),
    {
        if self.status_code != 2 {
            self.status_code = 1;
        }
    }
}

} // verus!
