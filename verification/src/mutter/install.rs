//! The shell extension on disk: where it is put, whether the running shell can
//! load it, and whether it is switched on.

use vstd::prelude::*;
use vstd::utf8::*;

use crate::json::{parse, parsed, Json};
use crate::mutter::error::EXTENSION_ID;
use crate::text::{
    after_prefix, before_suffix, cat, cat3, contains, has_text, join, joined, leading_number,
    lemma_texts_push, lines, lines_of, opt_text, owned, path_in, path_join, read_leading, same,
    split, split_at_char, strip_prefix, strip_suffix, text_from_utf8, texts, trim, trim_end,
    trim_start, trimmed, utf8_error, words, words_of,
};

verus! {

/// Where the system keeps extensions.
pub const SYSTEM_EXTENSIONS_DIR: &'static str = "/usr/share/gnome-shell/extensions";

/// The key under which the shell keeps the list of extensions that are on.
pub const ENABLED_KEY: &'static str = "/org/gnome/shell/enabled-extensions";

/// The view of an optional text.
pub open spec fn opt_str(o: Option<&str>) -> Option<Seq<char>> {
    match o {
        Some(s) => Some(s@),
        None => None,
    }
}

/// `o`, unless it is empty.
pub open spec fn filled(o: Option<Seq<char>>) -> Option<Seq<char>> {
    match o {
        Some(s) => if s.len() == 0 {
            None
        } else {
            Some(s)
        },
        None => None,
    }
}

/// The directory for a user's data: `XDG_DATA_HOME`, or else `.local/share` in
/// the home directory.
pub open spec fn data_root(xdg: Option<Seq<char>>, home: Option<Seq<char>>) -> Option<Seq<char>> {
    match filled(xdg) {
        Some(d) => Some(d),
        None => match filled(home) {
            Some(h) => Some(path_join(h, ".local/share"@)),
            None => None,
        },
    }
}

/// The directory for a user's data.
pub fn data_home(xdg: Option<&str>, home: Option<&str>) -> (r: Option<String>)
    ensures
        opt_text(r) == data_root(opt_str(xdg), opt_str(home)),
{
    if let Some(d) = xdg {
        if !d.is_empty() {
            return Some(owned(d));
        }
    }
    match home {
        Some(h) => if h.is_empty() {
            None
        } else {
            Some(path_in(h, ".local/share"))
        },
        None => None,
    }
}

/// The user's directory of the extension.
pub open spec fn user_dir(xdg: Option<Seq<char>>, home: Option<Seq<char>>) -> Option<Seq<char>> {
    match data_root(xdg, home) {
        Some(d) => Some(path_join(path_join(d, "gnome-shell/extensions"@), EXTENSION_ID@)),
        None => None,
    }
}

/// The user's directory of the extension, from `XDG_DATA_HOME` and `HOME`.
pub fn extension_dir(xdg: Option<&str>, home: Option<&str>) -> (r: Option<String>)
    ensures
        opt_text(r) == user_dir(opt_str(xdg), opt_str(home)),
{
    match data_home(xdg, home) {
        Some(d) => {
            let all = path_in(d.as_str(), "gnome-shell/extensions");
            Some(path_in(all.as_str(), EXTENSION_ID))
        },
        None => None,
    }
}

/// The directories in which the extension may lie, the user's one first.
pub open spec fn candidate_dirs(xdg: Option<Seq<char>>, home: Option<Seq<char>>) -> Seq<
    Seq<char>,
> {
    let system = path_join(SYSTEM_EXTENSIONS_DIR@, EXTENSION_ID@);
    match user_dir(xdg, home) {
        Some(d) => seq![d, system],
        None => seq![system],
    }
}

/// The directories in which the extension may lie, the user's one first.
pub fn install_dirs(xdg: Option<&str>, home: Option<&str>) -> (r: Vec<String>)
    ensures
        texts(r@) == candidate_dirs(opt_str(xdg), opt_str(home)),
{
    let mut dirs: Vec<String> = Vec::new();
    if let Some(user) = extension_dir(xdg, home) {
        dirs.push(user);
    }
    dirs.push(path_in(SYSTEM_EXTENSIONS_DIR, EXTENSION_ID));
    assert(texts(dirs@) =~= candidate_dirs(opt_str(xdg), opt_str(home)));
    dirs
}

/// The user's directory to install into, or why there is none.
pub fn install_target(xdg: Option<&str>, home: Option<&str>) -> (r: Result<String, String>)
    ensures
        match user_dir(opt_str(xdg), opt_str(home)) {
            Some(d) => r matches Ok(x) && x@ == d,
            None => r matches Err(e) && e@
                == "cannot resolve extension dir (XDG_DATA_HOME and HOME both unset)"@,
        },
{
    match extension_dir(xdg, home) {
        Some(d) => Ok(d),
        None => Err(owned("cannot resolve extension dir (XDG_DATA_HOME and HOME both unset)")),
    }
}

/// The texts among the items.
pub open spec fn strings_in(items: Seq<Json>) -> Seq<Seq<char>>
    decreases items.len(),
{
    if items.len() == 0 {
        Seq::empty()
    } else {
        let front = strings_in(items.drop_last());
        match items.last().str() {
            Some(s) => front.push(s),
            None => front,
        }
    }
}

/// The shell versions that an extension's description names.
pub open spec fn named_versions(content: Seq<char>) -> Option<Seq<Seq<char>>> {
    match parsed(content) {
        Ok(j) => versions_in(j),
        Err(_) => None,
    }
}

/// The shell versions that a description names.
pub open spec fn versions_in(j: Json) -> Option<Seq<Seq<char>>> {
    match j.items_of("shell-version"@) {
        Some(items) => Some(strings_in(items)),
        None => None,
    }
}

/// The shell versions that a description names.
pub fn described_versions(j: &Json) -> (r: Option<Vec<String>>)
    ensures
        match r {
            Some(v) => versions_in(*j) == Some(texts(v@)),
            None => versions_in(*j) is None,
        },
{
    broadcast use lemma_texts_push;

    let items = match j.get_array("shell-version") {
        Some(items) => items,
        None => return None,
    };
    let mut out: Vec<String> = Vec::new();
    let mut i: usize = 0;
    assert(texts(out@) =~= Seq::<Seq<char>>::empty());
    while i < items.len()
        invariant
            i <= items.len(),
            texts(out@) == strings_in(items@.take(i as int)),
        decreases items.len() - i,
    {
        let ghost now = items@.take(i as int + 1);
        assert(now.drop_last() =~= items@.take(i as int));
        if let Some(s) = items[i].as_str() {
            out.push(owned(s));
        }
        i = i + 1;
    }
    assert(items@.take(i as int) =~= items@);
    Some(out)
}

/// The shell versions that the text of a description names.
pub fn metadata_shell_versions(content: &str) -> (r: Option<Vec<String>>)
    ensures
        match r {
            Some(v) => named_versions(content@) == Some(texts(v@)),
            None => named_versions(content@) is None,
        },
{
    match parse(content) {
        Ok(j) => described_versions(&j),
        Err(_) => None,
    }
}

/// One of the versions has this main version. Where the running version is not
/// known, nothing speaks against loading.
pub open spec fn covers(versions: Seq<Seq<char>>, major: Option<u32>) -> bool {
    match major {
        None => true,
        Some(m) => exists|i: int|
            0 <= i < versions.len() && leading_number(#[trigger] versions[i]) == Some(m as nat),
    }
}

/// Whether the versions cover the running main version.
pub fn shell_version_covers(versions: &Vec<String>, current_major: Option<u32>) -> (r: bool)
    ensures
        r == covers(texts(versions@), current_major),
{
    let major = match current_major {
        Some(m) => m,
        None => return true,
    };
    let mut i: usize = 0;
    while i < versions.len()
        invariant
            i <= versions.len(),
            current_major == Some(major),
            forall|j: int|
                0 <= j < i ==> leading_number(#[trigger] texts(versions@)[j]) != Some(major as nat),
        decreases versions.len() - i,
    {
        assert(texts(versions@)[i as int] == versions@[i as int]@);
        if let Some(n) = read_leading(versions[i].as_str()) {
            if n == major {
                return true;
            }
        }
        i = i + 1;
    }
    false
}

/// The main version in front of the first dot.
pub fn parse_major(version: &str) -> (r: Option<u32>)
    ensures
        match r {
            Some(n) => leading_number(version@) == Some(n as nat),
            None => leading_number(version@) is None,
        },
{
    read_leading(version)
}

/// The running main version: the one in the environment, or else the last word of
/// what the shell prints about its version.
pub open spec fn running_major(env: Option<Seq<char>>, printed: Option<Seq<char>>) -> Option<nat> {
    let in_env = match env {
        Some(v) => leading_number(v),
        None => None,
    };
    match in_env {
        Some(n) => Some(n),
        None => match printed {
            Some(out) => if words(out).len() > 0 {
                leading_number(words(out).last())
            } else {
                None
            },
            None => None,
        },
    }
}

/// The running main version, from `GNOME_SHELL_VERSION` and from what
/// `gnome-shell --version` prints.
pub fn current_shell_major(env: Option<&str>, printed: Option<&str>) -> (r: Option<u32>)
    ensures
        match r {
            Some(n) => running_major(opt_str(env), opt_str(printed)) == Some(n as nat),
            None => running_major(opt_str(env), opt_str(printed)) is None,
        },
{
    if let Some(v) = env {
        if let Some(n) = parse_major(v) {
            return Some(n);
        }
    }
    match printed {
        Some(out) => {
            let parts = words_of(out);
            let n: usize = parts.len();
            if n == 0 {
                return None;
            }
            assert(texts(parts@).last() == parts@[n - 1]@);
            parse_major(parts[n - 1].as_str())
        },
        None => None,
    }
}

/// What lies in one of the candidate directories.
#[derive(Debug)]
pub struct DirState {
    pub dir: String,
    /// Both files of the extension are there.
    pub files_present: bool,
    /// The text of its description, where it can be read.
    pub metadata: Option<String>,
}

/// What is known of a candidate directory.
#[verifier::ext_equal]
pub struct DirView {
    pub dir: Seq<char>,
    pub files_present: bool,
    pub metadata: Option<Seq<char>>,
}

impl View for DirState {
    type V = DirView;

    open spec fn view(&self) -> DirView {
        DirView {
            dir: self.dir@,
            files_present: self.files_present,
            metadata: opt_text(self.metadata),
        }
    }
}

impl DirView {
    /// The versions that the description names; none where it cannot be read.
    pub open spec fn versions(self) -> Seq<Seq<char>> {
        match self.metadata {
            Some(m) => match named_versions(m) {
                Some(v) => v,
                None => Seq::empty(),
            },
            None => Seq::empty(),
        }
    }

    /// The running shell can load what lies here.
    pub open spec fn loadable(self, major: Option<u32>) -> bool {
        self.files_present && self.versions().len() > 0 && covers(self.versions(), major)
    }

    /// Everything is here, but for other versions of the shell.
    pub open spec fn mismatched(self, major: u32) -> bool {
        self.files_present && self.versions().len() > 0 && !covers(self.versions(), Some(major))
    }
}

fn versions_at(d: &DirState) -> (r: Vec<String>)
    ensures
        texts(r@) == d@.versions(),
{
    if let Some(m) = &d.metadata {
        if let Some(v) = metadata_shell_versions(m.as_str()) {
            return v;
        }
    }
    let none: Vec<String> = Vec::new();
    assert(texts(none@) =~= Seq::<Seq<char>>::empty());
    none
}

/// Whether the running shell can load what lies in the directory.
pub fn is_installed_at(d: &DirState, major: Option<u32>) -> (r: bool)
    ensures
        r == d@.loadable(major),
{
    let versions = versions_at(d);
    assert(texts(versions@).len() == versions@.len());
    d.files_present && versions.len() > 0 && shell_version_covers(&versions, major)
}

/// Whether the running shell can load the extension from one of the directories.
pub fn is_installed(dirs: &Vec<DirState>, major: Option<u32>) -> (r: bool)
    ensures
        r == exists|i: int| 0 <= i < dirs@.len() && (#[trigger] dirs@[i])@.loadable(major),
{
    let mut i: usize = 0;
    while i < dirs.len()
        invariant
            i <= dirs.len(),
            forall|j: int| 0 <= j < i ==> !(#[trigger] dirs@[j])@.loadable(major),
        decreases dirs.len() - i,
    {
        if is_installed_at(&dirs[i], major) {
            return true;
        }
        i = i + 1;
    }
    false
}

/// The first directory with all the files.
pub open spec fn first_present(dirs: Seq<DirState>) -> Option<Seq<char>>
    decreases dirs.len(),
{
    if dirs.len() == 0 {
        None
    } else if dirs[0].files_present {
        Some(dirs[0].dir@)
    } else {
        first_present(dirs.skip(1))
    }
}

/// The directory in which the extension lies, whether or not it can be loaded.
pub fn installed_dir(dirs: &Vec<DirState>) -> (r: Option<String>)
    ensures
        opt_text(r) == first_present(dirs@),
{
    let mut i: usize = 0;
    assert(dirs@.skip(0) =~= dirs@);
    while i < dirs.len()
        invariant
            i <= dirs.len(),
            first_present(dirs@) == first_present(dirs@.skip(i as int)),
        decreases dirs.len() - i,
    {
        if dirs[i].files_present {
            return Some(dirs[i].dir.clone());
        }
        assert(dirs@.skip(i as int).skip(1) =~= dirs@.skip(i as int + 1));
        i = i + 1;
    }
    None
}

/// Whether the extension lies in one of the directories for other versions of the
/// shell only. Where the running version is not known there is no mismatch.
pub fn shell_version_mismatch(dirs: &Vec<DirState>, major: Option<u32>) -> (r: bool)
    ensures
        r == (major matches Some(m) && exists|i: int|
            0 <= i < dirs@.len() && (#[trigger] dirs@[i])@.mismatched(m)),
{
    let m = match major {
        Some(m) => m,
        None => return false,
    };
    let mut i: usize = 0;
    while i < dirs.len()
        invariant
            i <= dirs.len(),
            major == Some(m),
            forall|j: int| 0 <= j < i ==> !(#[trigger] dirs@[j])@.mismatched(m),
        decreases dirs.len() - i,
    {
        let versions = versions_at(&dirs[i]);
        assert(texts(versions@).len() == versions@.len());
        if dirs[i].files_present && versions.len() > 0 && !shell_version_covers(
            &versions,
            Some(m),
        ) {
            return true;
        }
        i = i + 1;
    }
    false
}

/// The same place cannot both be loadable and hold the wrong versions.
pub proof fn law_loadable_or_mismatched(d: DirView, major: u32)
    requires
        d.files_present,
        d.versions().len() > 0,
    ensures
        d.loadable(Some(major)) != d.mismatched(major),
{
}

/// How the extension is to be switched on.
#[derive(Clone, Copy, Debug, PartialEq, Eq, Structural)]
pub enum EnableWay {
    /// By the shell's own tool.
    Tool,
    /// By editing the list of extensions that are on.
    List,
}

/// How to switch the extension on; it has to be installed first.
pub fn enable(installed: bool, tool_present: bool) -> (r: Result<EnableWay, String>)
    ensures
        installed ==> r == Ok::<EnableWay, String>(
            if tool_present {
                EnableWay::Tool
            } else {
                EnableWay::List
            },
        ),
        !installed ==> (r matches Err(e) && e@ == "extension "@ + EXTENSION_ID@
            + " not installed; run `agent-shell extension install` first"@),
{
    if !installed {
        return Err(
            cat3(
                "extension ",
                EXTENSION_ID,
                " not installed; run `agent-shell extension install` first",
            ),
        );
    }
    if tool_present {
        Ok(EnableWay::Tool)
    } else {
        Ok(EnableWay::List)
    }
}

/// The outcome of the shell's own tool.
pub fn tool_enabled(outcome: Result<String, String>) -> (r: Result<(), String>)
    ensures
        match outcome {
            Ok(_) => r is Ok,
            Err(e) => r matches Err(x) && x@ == "gnome-extensions enable failed: "@ + e@,
        },
{
    match outcome {
        Ok(_) => Ok(()),
        Err(e) => Err(cat("gnome-extensions enable failed: ", e.as_str())),
    }
}

/// A line of the tool's report says that the extension is active.
pub open spec fn reports_active(report: Seq<char>) -> bool {
    exists|i: int|
        0 <= i < lines(report).len() && trim(#[trigger] lines(report)[i]) == "State: ACTIVE"@
}

/// Whether the extension is on: by the list, where it can be read, or else by the
/// tool's report. What is not installed is never on.
pub open spec fn switched_on(
    installed: bool,
    list: Option<Seq<char>>,
    report: Option<Seq<char>>,
) -> bool {
    installed && match list {
        Some(out) => contains(out, "'"@ + EXTENSION_ID@ + "'"@),
        None => match report {
            Some(out) => reports_active(out),
            None => false,
        },
    }
}

/// Whether the extension is on.
pub fn is_enabled(installed: bool, list: Option<&str>, report: Option<&str>) -> (r: bool)
    ensures
        r == switched_on(installed, opt_str(list), opt_str(report)),
{
    if !installed {
        return false;
    }
    if let Some(out) = list {
        let quoted = cat3("'", EXTENSION_ID, "'");
        return has_text(out, quoted.as_str());
    }
    let out = match report {
        Some(out) => out,
        None => return false,
    };
    let all = lines_of(out);
    let mut i: usize = 0;
    while i < all.len()
        invariant
            i <= all.len(),
            texts(all@) == lines(out@),
            forall|j: int| 0 <= j < i ==> trim(#[trigger] lines(out@)[j]) != "State: ACTIVE"@,
            installed,
            opt_str(list) is None,
            opt_str(report) == Some(out@),
        decreases all.len() - i,
    {
        assert(lines(out@)[i as int] == all@[i as int]@);
        let line = trimmed(all[i].as_str());
        if same(line.as_str(), "State: ACTIVE") {
            return true;
        }
        i = i + 1;
    }
    false
}

/// The text between single quotes.
pub open spec fn unquoted(s: Seq<char>) -> Option<Seq<char>> {
    match strip_prefix(trim(s), "'"@) {
        Some(rest) => strip_suffix(rest, "'"@),
        None => None,
    }
}

/// The texts between single quotes, if all items are such.
pub open spec fn all_unquoted(items: Seq<Seq<char>>) -> Option<Seq<Seq<char>>>
    decreases items.len(),
{
    if items.len() == 0 {
        Some(Seq::empty())
    } else {
        match (all_unquoted(items.drop_last()), unquoted(items.last())) {
            (Some(front), Some(s)) => Some(front.push(s)),
            _ => None,
        }
    }
}

/// The items of a list in square brackets.
pub open spec fn dconf_items(raw: Seq<char>) -> Option<Seq<Seq<char>>> {
    match strip_prefix(trim(raw), "["@) {
        None => None,
        Some(rest) => match strip_suffix(rest, "]"@) {
            None => None,
            Some(inner) => if trim(inner).len() == 0 {
                Some(Seq::empty())
            } else {
                all_unquoted(split(trim(inner), ','))
            },
        },
    }
}

/// `s` between single quotes.
pub open spec fn quoted(s: Seq<char>) -> Seq<char> {
    "'"@ + s + "'"@
}

/// Each item between single quotes.
pub open spec fn all_quoted(items: Seq<Seq<char>>) -> Seq<Seq<char>> {
    Seq::new(items.len(), |i: int| quoted(items[i]))
}

/// The text of a list.
pub open spec fn dconf_text(items: Seq<Seq<char>>) -> Seq<char> {
    "["@ + join(all_quoted(items), ", "@) + "]"@
}

/// The items other than `id`, in their order.
pub open spec fn others(items: Seq<Seq<char>>, id: Seq<char>) -> Seq<Seq<char>>
    decreases items.len(),
{
    if items.len() == 0 {
        Seq::empty()
    } else if items.last() == id {
        others(items.drop_last(), id)
    } else {
        others(items.drop_last(), id).push(items.last())
    }
}

/// The list with the extension switched on or off: on, it stands last.
pub open spec fn edited(items: Seq<Seq<char>>, enabled: bool) -> Seq<Seq<char>> {
    if enabled {
        others(items, EXTENSION_ID@).push(EXTENSION_ID@)
    } else {
        others(items, EXTENSION_ID@)
    }
}

fn unquote(s: &str) -> (r: Option<String>)
    ensures
        opt_text(r) == unquoted(s@),
{
    let t = trimmed(s);
    match after_prefix(t.as_str(), "'") {
        Some(rest) => before_suffix(rest.as_str(), "'"),
        None => None,
    }
}

/// The items of a list such as `['a', 'b']`. What is no list has none, and no
/// list of items is made out of one that is not quoted.
pub fn parse_dconf_list(raw: &str) -> (r: Option<Vec<String>>)
    ensures
        match r {
            Some(v) => dconf_items(raw@) == Some(texts(v@)),
            None => dconf_items(raw@) is None,
        },
{
    broadcast use lemma_texts_push;

    let t = trimmed(raw);
    let rest = match after_prefix(t.as_str(), "[") {
        Some(rest) => rest,
        None => return None,
    };
    let inner = match before_suffix(rest.as_str(), "]") {
        Some(inner) => trimmed(inner.as_str()),
        None => return None,
    };
    let mut out: Vec<String> = Vec::new();
    assert(texts(out@) =~= Seq::<Seq<char>>::empty());
    if inner.as_str().is_empty() {
        return Some(out);
    }
    let parts = split_at_char(inner.as_str(), ',');
    let ghost all = split(inner@, ',');
    let mut i: usize = 0;
    while i < parts.len()
        invariant
            i <= parts.len(),
            texts(parts@) == all,
            dconf_items(raw@) == all_unquoted(all),
            all_unquoted(all.take(i as int)) == Some(texts(out@)),
        decreases parts.len() - i,
    {
        assert(all[i as int] == parts@[i as int]@);
        assert(all.take(i as int + 1).drop_last() =~= all.take(i as int));
        match unquote(parts[i].as_str()) {
            Some(s) => {
                out.push(s);
            },
            None => {
                proof {
                    lemma_unquoted_all_or_none(all, i as int);
                }
                return None;
            },
        }
        i = i + 1;
    }
    assert(all.take(i as int) =~= all);
    Some(out)
}

proof fn lemma_unquoted_all_or_none(items: Seq<Seq<char>>, i: int)
    requires
        0 <= i < items.len(),
        unquoted(items[i]) is None,
    ensures
        all_unquoted(items) is None,
    decreases items.len(),
{
    if i < items.len() - 1 {
        lemma_unquoted_all_or_none(items.drop_last(), i);
    }
}

/// The list to write, from the text of the list as it stands: the extension
/// switched on or off, everything else as it was. What cannot be read as a list
/// counts as empty.
pub fn dconf_set_enabled(current: Option<&str>, enabled: bool) -> (r: String)
    ensures
        ({
            let items = match opt_str(current) {
                Some(raw) => match dconf_items(raw) {
                    Some(v) => v,
                    None => Seq::empty(),
                },
                None => Seq::empty(),
            };
            r@ == dconf_text(edited(items, enabled))
        }),
{
    broadcast use lemma_texts_push;

    let mut list: Vec<String> = Vec::new();
    assert(texts(list@) =~= Seq::<Seq<char>>::empty());
    if let Some(raw) = current {
        if let Some(v) = parse_dconf_list(raw) {
            list = v;
        }
    }
    let ghost items = texts(list@);
    let mut marked: Vec<String> = Vec::new();
    let mut i: usize = 0;
    assert(texts(marked@) =~= all_quoted(others(items.take(0), EXTENSION_ID@)));
    while i < list.len()
        invariant
            i <= list.len(),
            items == texts(list@),
            texts(marked@) == all_quoted(others(items.take(i as int), EXTENSION_ID@)),
        decreases list.len() - i,
    {
        let ghost now = items.take(i as int + 1);
        assert(now.drop_last() =~= items.take(i as int));
        assert(now.last() == list@[i as int]@);
        if !same(list[i].as_str(), EXTENSION_ID) {
            let ghost had = others(items.take(i as int), EXTENSION_ID@);
            marked.push(cat3("'", list[i].as_str(), "'"));
            assert(all_quoted(had.push(now.last())) =~= all_quoted(had).push(quoted(now.last())));
        }
        i = i + 1;
    }
    assert(items.take(i as int) =~= items);
    if enabled {
        let ghost had = others(items, EXTENSION_ID@);
        marked.push(cat3("'", EXTENSION_ID, "'"));
        assert(all_quoted(had.push(EXTENSION_ID@)) =~= all_quoted(had).push(
            quoted(EXTENSION_ID@),
        ));
    }
    let inner = joined(&marked, ", ");
    cat3("[", inner.as_str(), "]")
}

/// What came of running a program.
pub enum RunOutcome {
    /// It could not be started.
    NotStarted(String),
    /// It ended with a failure status.
    Exited(String),
    /// What it wrote.
    Output(Vec<u8>),
}

/// The text that a program wrote, or what went wrong.
pub open spec fn run_text(program: Seq<char>, o: RunOutcome) -> Result<Seq<char>, Seq<char>> {
    match o {
        RunOutcome::NotStarted(e) => Err("spawn "@ + program + ": "@ + e@),
        RunOutcome::Exited(status) => Err(program + " exited "@ + status@),
        RunOutcome::Output(bytes) => if valid_utf8(bytes@) {
            Ok(trim(decode_utf8(bytes@)))
        } else {
            Err(program + " non-utf8 output: "@ + utf8_error(bytes@))
        },
    }
}

/// The text that a program wrote, without white space around it, or what went
/// wrong.
pub fn run(program: &str, o: RunOutcome) -> (r: Result<String, String>)
    ensures
        match r {
            Ok(s) => run_text(program@, o) == Ok::<Seq<char>, Seq<char>>(s@),
            Err(e) => run_text(program@, o) == Err::<Seq<char>, Seq<char>>(e@),
        },
{
    match o {
        RunOutcome::NotStarted(e) => {
            let head = cat3("spawn ", program, ": ");
            Err(cat(head.as_str(), e.as_str()))
        },
        RunOutcome::Exited(status) => Err(cat3(program, " exited ", status.as_str())),
        RunOutcome::Output(bytes) => match text_from_utf8(bytes) {
            Ok(s) => Ok(trimmed(s.as_str())),
            Err(e) => Err(cat3(program, " non-utf8 output: ", e.as_str())),
        },
    }
}

// ---------------------------------------------------------------------------
// Laws of the list
// ---------------------------------------------------------------------------
/// After switching, the extension is in the list exactly if it was switched on,
/// and every other item is in it exactly if it was in it before.
pub proof fn law_edit_changes_only_the_extension(items: Seq<Seq<char>>, enabled: bool)
    ensures
        edited(items, enabled).contains(EXTENSION_ID@) == enabled,
        forall|x: Seq<char>|
            x != EXTENSION_ID@ ==> (#[trigger] edited(items, enabled).contains(x) == items.contains(
                x,
            )),
{
    let id = EXTENSION_ID@;
    let rest = others(items, id);
    lemma_others(items, id);
    if enabled {
        assert(edited(items, enabled)[rest.len() as int] == id);
        assert forall|x: Seq<char>| x != id implies (#[trigger] edited(items, enabled).contains(x)
            == items.contains(x)) by {
            if rest.contains(x) {
                let k = choose|k: int| 0 <= k < rest.len() && rest[k] == x;
                assert(edited(items, enabled)[k] == x);
            }
            if edited(items, enabled).contains(x) {
                let k = choose|k: int|
                    0 <= k < edited(items, enabled).len() && edited(items, enabled)[k] == x;
                assert(rest[k] == x);
            }
        }
    }
}

/// Once the list with the extension switched on is written, the extension is
/// found to be on.
pub proof fn law_switched_on_is_seen(items: Seq<Seq<char>>, report: Option<Seq<char>>)
    ensures
        switched_on(true, Some(dconf_text(edited(items, true))), report),
{
    reveal_strlit("]");
    let list = edited(items, true);
    let all = all_quoted(list);
    let q = quoted(EXTENSION_ID@);
    let t = dconf_text(list);
    assert(all.last() == q);
    let at = t.len() - 1 - q.len();
    assert(t.subrange(at, at + q.len()) =~= q);
    assert(crate::text::occurs_at(t, q, at));
}

proof fn lemma_others(items: Seq<Seq<char>>, id: Seq<char>)
    ensures
        !others(items, id).contains(id),
        forall|x: Seq<char>|
            x != id ==> (#[trigger] others(items, id).contains(x) == items.contains(x)),
    decreases items.len(),
{
    if items.len() > 0 {
        let front = items.drop_last();
        let rest = others(front, id);
        lemma_others(front, id);
        assert forall|x: Seq<char>| #[trigger] items.contains(x) == (front.contains(x)
            || items.last() == x) by {
            if front.contains(x) {
                let k = choose|k: int| 0 <= k < front.len() && front[k] == x;
                assert(items[k] == x);
            }
            if items.contains(x) {
                let k = choose|k: int| 0 <= k < items.len() && items[k] == x;
                if k < items.len() - 1 {
                    assert(front[k] == x);
                }
            }
        }
        if items.last() != id {
            let all = rest.push(items.last());
            assert forall|x: Seq<char>| #[trigger] all.contains(x) == (rest.contains(x)
                || items.last() == x) by {
                if rest.contains(x) {
                    let k = choose|k: int| 0 <= k < rest.len() && rest[k] == x;
                    assert(all[k] == x);
                }
                if items.last() == x {
                    assert(all[rest.len() as int] == x);
                }
                if all.contains(x) {
                    let k = choose|k: int| 0 <= k < all.len() && all[k] == x;
                    if k < rest.len() {
                        assert(rest[k] == x);
                    }
                }
            }
        }
    }
}

/// Text that neither starts nor ends with white space is left alone by trimming.
proof fn lemma_trim_same(s: Seq<char>)
    requires
        s.len() > 0,
        !crate::text::is_white(s[0]),
        !crate::text::is_white(s.last()),
    ensures
        trim(s) == s,
{
}

proof fn lemma_split_without(b: Seq<char>, sep: char)
    requires
        !b.contains(sep),
    ensures
        split(b, sep) == seq![b],
    decreases b.len(),
{
    if b.len() > 0 {
        let front = b.drop_last();
        assert(!front.contains(sep)) by {
            if front.contains(sep) {
                let k = choose|k: int| 0 <= k < front.len() && front[k] == sep;
                assert(b[k] == sep);
            }
        }
        lemma_split_without(front, sep);
        assert(b[b.len() - 1] != sep);
        assert(front.push(b.last()) =~= b);
        assert(split(b, sep) =~= seq![b]);
    } else {
        assert(b =~= Seq::<char>::empty());
    }
}

proof fn lemma_split_append(a: Seq<char>, b: Seq<char>, sep: char)
    requires
        !b.contains(sep),
    ensures
        split(a + seq![sep] + b, sep) == split(a, sep).push(b),
    decreases b.len(),
{
    let s = a + seq![sep] + b;
    if b.len() == 0 {
        assert(s.drop_last() =~= a);
        assert(s.last() == sep);
        assert(b =~= Seq::<char>::empty());
    } else {
        let front = b.drop_last();
        assert(!front.contains(sep)) by {
            if front.contains(sep) {
                let k = choose|k: int| 0 <= k < front.len() && front[k] == sep;
                assert(b[k] == sep);
            }
        }
        lemma_split_append(a, front, sep);
        assert(b[b.len() - 1] != sep);
        assert(s.drop_last() =~= a + seq![sep] + front);
        let got = split(a, sep).push(front);
        assert(got.drop_last() =~= split(a, sep));
        assert(front.push(b.last()) =~= b);
    }
}

/// The pieces of a list's text: the first item in quotes, and the others in
/// quotes behind a blank.
spec fn pieces(items: Seq<Seq<char>>) -> Seq<Seq<char>> {
    Seq::new(
        items.len(),
        |i: int|
            if i == 0 {
                quoted(items[i])
            } else {
                seq![' '] + quoted(items[i])
            },
    )
}

proof fn lemma_quoted_plain(s: Seq<char>)
    requires
        !s.contains(','),
    ensures
        !quoted(s).contains(','),
        !(seq![' '] + quoted(s)).contains(','),
{
    reveal_strlit("'");
    if (seq![' '] + quoted(s)).contains(',') {
        let t = seq![' '] + quoted(s);
        let k = choose|k: int| 0 <= k < t.len() && t[k] == ',';
        assert(s[k - 2] == ',');
    }
    if quoted(s).contains(',') {
        let k = choose|k: int| 0 <= k < quoted(s).len() && quoted(s)[k] == ',';
        assert(s[k - 1] == ',');
    }
}

proof fn lemma_split_of_join(items: Seq<Seq<char>>)
    requires
        items.len() > 0,
        forall|i: int| 0 <= i < items.len() ==> !(#[trigger] items[i]).contains(','),
    ensures
        split(join(all_quoted(items), ", "@), ',') == pieces(items),
    decreases items.len(),
{
    let all = all_quoted(items);
    lemma_quoted_plain(items.last());
    assert(!items[items.len() - 1].contains(','));
    if items.len() == 1 {
        lemma_split_without(quoted(items[0]), ',');
        assert(pieces(items) =~= seq![quoted(items[0])]);
    } else {
        reveal_strlit(", ");
        let front = items.drop_last();
        assert forall|i: int| 0 <= i < front.len() implies !(#[trigger] front[i]).contains(',') by {
            assert(front[i] == items[i]);
        }
        lemma_split_of_join(front);
        let a = join(all_quoted(front), ", "@);
        let b = seq![' '] + quoted(items.last());
        assert(all.drop_last() =~= all_quoted(front));
        assert(join(all, ", "@) =~= a + seq![','] + b);
        lemma_split_append(a, b, ',');
        assert(pieces(items) =~= pieces(front).push(b));
    }
}

proof fn lemma_unquoted_of_quoted(s: Seq<char>)
    ensures
        unquoted(quoted(s)) == Some(s),
        unquoted(seq![' '] + quoted(s)) == Some(s),
{
    reveal_strlit("'");
    let q = quoted(s);
    lemma_trim_same(q);
    let t = seq![' '] + q;
    assert(t.skip(1) =~= q);
    assert(trim_start(t) == trim_start(q));
    assert(trim_end(trim_start(t)) == q);
    assert(q.take(1) =~= "'"@);
    let rest = q.skip(1);
    assert(rest.skip(rest.len() - 1) =~= "'"@);
    assert(rest.take(rest.len() - 1) =~= s);
}

proof fn lemma_unquoted_pieces(items: Seq<Seq<char>>)
    ensures
        all_unquoted(pieces(items)) == Some(items),
    decreases items.len(),
{
    if items.len() > 0 {
        let front = items.drop_last();
        lemma_unquoted_pieces(front);
        lemma_unquoted_of_quoted(items.last());
        assert(pieces(items).drop_last() =~= pieces(front));
        assert(front.push(items.last()) =~= items);
    } else {
        assert(items =~= Seq::<Seq<char>>::empty());
    }
}

proof fn lemma_join_ends(items: Seq<Seq<char>>)
    requires
        items.len() > 0,
    ensures
        ({
            let t = join(all_quoted(items), ", "@);
            t.len() > 0 && t[0] == '\'' && t.last() == '\''
        }),
    decreases items.len(),
{
    reveal_strlit("'");
    let all = all_quoted(items);
    if items.len() > 1 {
        let front = items.drop_last();
        lemma_join_ends(front);
        assert(all.drop_last() =~= all_quoted(front));
    }
}

/// A list survives being written and read, as long as no item holds a comma.
pub proof fn law_list_round_trip(items: Seq<Seq<char>>)
    requires
        forall|i: int| 0 <= i < items.len() ==> !(#[trigger] items[i]).contains(','),
    ensures
        dconf_items(dconf_text(items)) == Some(items),
{
    reveal_strlit("[");
    reveal_strlit("]");
    let inner = join(all_quoted(items), ", "@);
    let t = dconf_text(items);
    lemma_trim_same(t);
    assert(t.take(1) =~= "["@);
    let rest = t.skip(1);
    assert(rest =~= inner + "]"@);
    assert(rest.skip(rest.len() - 1) =~= "]"@);
    assert(rest.take(rest.len() - 1) =~= inner);
    if items.len() == 0 {
        assert(inner =~= Seq::<char>::empty());
        assert(trim(inner) =~= Seq::<char>::empty());
        assert(items =~= Seq::<Seq<char>>::empty());
    } else {
        lemma_join_ends(items);
        lemma_trim_same(inner);
        lemma_split_of_join(items);
        lemma_unquoted_pieces(items);
    }
}

} // verus!
