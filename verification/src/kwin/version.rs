//! Which KWin is running.

use vstd::prelude::*;

use crate::kwin::error::{KWinError, KWinErrorView};
use crate::text::{
    after_prefix, leading_number, lines, lines_of, opt_text, owned, read_leading, strip_prefix,
    texts, trim, trimmed, words, words_of,
};

verus! {

/// The main versions that differ in their scripting interface.
#[derive(Clone, Copy, Debug, PartialEq, Eq, Structural)]
pub enum KWinMajor {
    V5,
    V6,
}

/// The version of the running KWin.
#[derive(Debug)]
pub struct KWinVersion {
    /// The full version, such as "6.1.4", or "unknown".
    pub full: String,
    /// The main version.
    pub major: KWinMajor,
}

/// What is known of the version.
#[verifier::ext_equal]
pub struct VersionView {
    pub full: Seq<char>,
    pub major: KWinMajor,
}

impl View for KWinVersion {
    type V = VersionView;

    open spec fn view(&self) -> VersionView {
        VersionView { full: self.full@, major: self.major }
    }
}

impl KWinVersion {
    /// Whether this is KWin 6 or later.
    pub fn is_v6(&self) -> (r: bool)
        ensures
            r == (self@.major == KWinMajor::V6),
    {
        matches!(self.major, KWinMajor::V6)
    }
}

/// What follows one of the three labels that introduce the version.
pub open spec fn version_label(line: Seq<char>) -> Option<Seq<char>> {
    match strip_prefix(line, "KWin version:"@) {
        Some(r) => Some(r),
        None => match strip_prefix(line, "Version:"@) {
            Some(r) => Some(r),
            None => strip_prefix(line, "version:"@),
        },
    }
}

/// The version that a line states: its label, then a word whose first part is a
/// number.
pub open spec fn version_in_line(line: Seq<char>) -> Option<VersionView> {
    match version_label(trim(line)) {
        None => None,
        Some(rest) => if words(rest).len() == 0 {
            None
        } else {
            match leading_number(words(rest)[0]) {
                None => None,
                Some(n) => Some(
                    VersionView {
                        full: words(rest)[0],
                        major: if n >= 6 {
                            KWinMajor::V6
                        } else {
                            KWinMajor::V5
                        },
                    },
                ),
            }
        },
    }
}

/// The version in the first line that states one.
pub open spec fn first_version(ls: Seq<Seq<char>>) -> Option<VersionView>
    decreases ls.len(),
{
    if ls.len() == 0 {
        None
    } else {
        match version_in_line(ls[0]) {
            Some(v) => Some(v),
            None => first_version(ls.skip(1)),
        }
    }
}

/// The view of an optional version.
pub open spec fn opt_version(o: Option<KWinVersion>) -> Option<VersionView> {
    match o {
        Some(v) => Some(v@),
        None => None,
    }
}

/// The number in front of the first dot: "6.1.4" gives 6.
pub fn leading_major(token: &str) -> (r: Option<u32>)
    ensures
        match r {
            Some(n) => leading_number(token@) == Some(n as nat),
            None => leading_number(token@) is None,
        },
{
    read_leading(token)
}

fn after_label(line: &str) -> (r: Option<String>)
    ensures
        opt_text(r) == version_label(line@),
{
    match after_prefix(line, "KWin version:") {
        Some(rest) => Some(rest),
        None => match after_prefix(line, "Version:") {
            Some(rest) => Some(rest),
            None => after_prefix(line, "version:"),
        },
    }
}

fn line_version(line: &str) -> (r: Option<KWinVersion>)
    ensures
        opt_version(r) == version_in_line(line@),
{
    let line = trimmed(line);
    let rest = match after_label(line.as_str()) {
        Some(rest) => rest,
        None => return None,
    };
    let parts = words_of(rest.as_str());
    if parts.len() == 0 {
        return None;
    }
    assert(parts@[0]@ == texts(parts@)[0]);
    let token = parts[0].as_str();
    match leading_major(token) {
        Some(n) => Some(
            KWinVersion {
                full: owned(token),
                major: if n >= 6 {
                    KWinMajor::V6
                } else {
                    KWinMajor::V5
                },
            },
        ),
        None => None,
    }
}

/// The version that KWin's support information states: the first word behind
/// "KWin version:", "Version:" or "version:" in the first line where that word
/// starts with a number.
pub fn parse_support_information(text: &str) -> (r: Option<KWinVersion>)
    ensures
        opt_version(r) == first_version(lines(text@)),
{
    let all = lines_of(text);
    let ghost ls = lines(text@);
    let mut i: usize = 0;
    assert(ls.skip(0) =~= ls);
    while i < all.len()
        invariant
            i <= all.len(),
            texts(all@) == ls,
            ls == lines(text@),
            first_version(ls) == first_version(ls.skip(i as int)),
        decreases all.len() - i,
    {
        assert(all@[i as int]@ == ls[i as int]);
        match line_version(all[i].as_str()) {
            Some(v) => return Some(v),
            None => {},
        }
        assert(ls.skip(i as int).skip(1) =~= ls.skip(i as int + 1));
        i = i + 1;
    }
    None
}

/// The version behind a support information reply, or the reason why there is
/// none.
pub fn version_from_support(info: &str) -> (r: Result<KWinVersion, KWinError>)
    ensures
        match r {
            Ok(v) => first_version(lines(info@)) == Some(v@),
            Err(e) => first_version(lines(info@)) is None && e@ == KWinErrorView::Scripting(
                "supportInformation has no version line"@,
            ),
        },
{
    match parse_support_information(info) {
        Some(v) => Ok(v),
        None => Err(KWinError::Scripting(owned("supportInformation has no version line"))),
    }
}

/// The version to work with when KWin does not tell: the one in the environment
/// variable `KWIN_VERSION`, if it starts with a number, else KWin 6 under the
/// name "unknown".
pub open spec fn assumed_version(env: Option<Seq<char>>) -> VersionView {
    let unknown = VersionView { full: "unknown"@, major: KWinMajor::V6 };
    match env {
        None => unknown,
        Some(token) => match leading_number(token) {
            None => unknown,
            Some(n) => VersionView {
                full: token,
                major: if n >= 6 {
                    KWinMajor::V6
                } else {
                    KWinMajor::V5
                },
            },
        },
    }
}

/// The version to work with: the detected one, or else the assumed one.
pub fn resolve_version(detected: Result<KWinVersion, KWinError>, env: Option<String>) -> (r:
    KWinVersion)
    ensures
        r@ == (match detected {
            Ok(v) => v@,
            Err(_) => assumed_version(opt_text(env)),
        }),
{
    match detected {
        Ok(v) => v,
        Err(_) => {
            if let Some(token) = env {
                if let Some(n) = leading_major(token.as_str()) {
                    return KWinVersion {
                        full: token,
                        major: if n >= 6 {
                            KWinMajor::V6
                        } else {
                            KWinMajor::V5
                        },
                    };
                }
            }
            KWinVersion { full: owned("unknown"), major: KWinMajor::V6 }
        },
    }
}

} // verus!
