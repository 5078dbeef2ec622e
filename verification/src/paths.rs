//! Paths as text: components, equality, file names and prefixes.
//!
//! A path has slashes between its components. [`slashed_path`] brings a path of Windows, with a
//! drive letter and backslashes, into that form.

use vstd::prelude::*;
use vstd::string::*;
use crate::text::{
    chars_of, concat_text, fields, lemma_fields_nonempty, same_chars, split_fields, text_of,
};
use crate::views::{lemma_views_empty, lemma_views_push, option_view, views};

verus! {

/// The pieces of `path` between slashes.
pub open spec fn pieces(path: Seq<char>) -> Seq<Seq<char>> {
    fields(path, |c: char| c == '/')
}

/// Whether the piece at index `i` is a component: it is not empty, and no `.` but for one that
/// starts the path.
pub open spec fn is_component(pieces: Seq<Seq<char>>, i: int) -> bool {
    pieces[i].len() > 0 && (pieces[i] != seq!['.'] || i == 0)
}

/// The indices below `n` of the pieces that are components.
pub open spec fn kept(pieces: Seq<Seq<char>>, n: nat) -> Seq<int>
    decreases n,
{
    if n == 0 {
        Seq::<int>::empty()
    } else if is_component(pieces, n - 1) {
        kept(pieces, (n - 1) as nat).push(n - 1)
    } else {
        kept(pieces, (n - 1) as nat)
    }
}

/// Whether `path` starts at the root.
pub open spec fn is_rooted(path: Seq<char>) -> bool {
    path.len() > 0 && path[0] == '/'
}

/// The named components of `path`, without the root.
pub open spec fn names(path: Seq<char>) -> Seq<Seq<char>> {
    let all = pieces(path);
    let indices = kept(all, all.len());
    Seq::new(indices.len(), |i: int| all[indices[i]])
}

/// Whether two texts denote the same path: both start at the root or neither does, and their
/// components are the same. Repeated and trailing slashes, and `.` behind the start, do not count.
pub open spec fn same_path(a: Seq<char>, b: Seq<char>) -> bool {
    is_rooted(a) == is_rooted(b) && names(a) == names(b)
}

/// The file name of `path`: its last component, unless that is the root, `.` or `..`.
pub open spec fn file_name(path: Seq<char>) -> Option<Seq<char>> {
    if names(path).len() > 0 && names(path).last() != seq!['.'] && names(path).last() != seq![
        '.',
        '.',
    ] {
        Some(names(path).last())
    } else {
        None
    }
}

/// The file name of `path`, or all of it where it has none.
pub open spec fn basename(path: Seq<char>) -> Seq<char> {
    match file_name(path) {
        Some(name) => name,
        None => path,
    }
}

/// The index in the path of the first character of piece `i`.
pub open spec fn piece_start(pieces: Seq<Seq<char>>, i: nat) -> nat
    decreases i,
{
    if i == 0 {
        0
    } else {
        piece_start(pieces, (i - 1) as nat) + pieces[i - 1].len() + 1
    }
}

/// The index behind the last component of `path`.
pub open spec fn components_end(path: Seq<char>) -> nat {
    let all = pieces(path);
    let indices = kept(all, all.len());
    if indices.len() > 0 {
        piece_start(all, indices.last() as nat) + all[indices.last()].len()
    } else if is_rooted(path) {
        1
    } else {
        0
    }
}

/// Whether the components of `base`, the root among them, start those of `path`.
pub open spec fn is_path_prefix(base: Seq<char>, path: Seq<char>) -> bool {
    let n = names(base).len();
    &&& is_rooted(base) ==> is_rooted(path)
    &&& (n > 0 ==> is_rooted(base) == is_rooted(path))
    &&& n <= names(path).len()
    &&& names(path).take(n as int) == names(base)
}

/// The index behind component `i` of `path`.
pub open spec fn component_end(path: Seq<char>, i: int) -> nat {
    let all = pieces(path);
    let indices = kept(all, all.len());
    piece_start(all, indices[i] as nat) + all[indices[i]].len()
}

/// The text of `path` behind the components of `base`, up to the last component. Behind a named
/// component it starts with the separator, where anything follows; behind the root alone, with
/// the first name.
pub open spec fn path_rest(base: Seq<char>, path: Seq<char>) -> Seq<char> {
    let all = pieces(path);
    let indices = kept(all, all.len());
    let n = names(base).len();
    let end = components_end(path);
    let start = if n > 0 {
        component_end(path, n - 1)
    } else if !is_rooted(base) {
        0
    } else if indices.len() > 0 {
        piece_start(all, indices[0] as nat)
    } else {
        end
    };
    path.subrange(start as int, end as int)
}

pub(crate) proof fn lemma_piece_start_prefix(a: Seq<Seq<char>>, b: Seq<Seq<char>>, i: nat)
    requires
        i <= a.len(),
        i <= b.len(),
        forall|k: int| 0 <= k < i ==> a[k] == b[k],
    ensures
        piece_start(a, i) == piece_start(b, i),
    decreases i,
{
    if i > 0 {
        lemma_piece_start_prefix(a, b, (i - 1) as nat);
    }
}

pub(crate) proof fn lemma_pieces_length(path: Seq<char>)
    ensures
        pieces(path).len() > 0,
        piece_start(pieces(path), pieces(path).len()) == path.len() + 1,
    decreases path.len(),
{
    let separator = |c: char| c == '/';
    lemma_fields_nonempty(path, separator);
    let all = pieces(path);
    if path.len() == 0 {
        assert(piece_start(all, 0) == 0);
    } else {
        let before = pieces(path.drop_last());
        lemma_pieces_length(path.drop_last());
        if path.last() == '/' {
            lemma_piece_start_prefix(all, before, before.len());
        } else {
            lemma_piece_start_prefix(all, before, (before.len() - 1) as nat);
        }
    }
}

proof fn lemma_piece_start_monotonic(pieces: Seq<Seq<char>>, i: nat, j: nat)
    requires
        i < j,
    ensures
        piece_start(pieces, i) + pieces[i as int].len() + 1 <= piece_start(pieces, j),
    decreases j,
{
    if i + 1 < j {
        lemma_piece_start_monotonic(pieces, i, (j - 1) as nat);
    }
}

pub(crate) proof fn lemma_kept_range(pieces: Seq<Seq<char>>, n: nat)
    ensures
        forall|i: int|
            0 <= i < kept(pieces, n).len() ==> 0 <= #[trigger] kept(pieces, n)[i] < n,
        forall|i: int, j: int|
            0 <= i < j < kept(pieces, n).len() ==> #[trigger] kept(pieces, n)[i] < #[trigger] kept(
                pieces,
                n,
            )[j],
        kept(pieces, n).len() <= n,
    decreases n,
{
    if n > 0 {
        lemma_kept_range(pieces, (n - 1) as nat);
    }
}

fn is_slash(c: char) -> (b: bool)
    ensures
        b == (c == '/'),
{
    c == '/'
}

/// A path taken apart.
struct Components {
    rooted: bool,
    names: Vec<Vec<char>>,
    starts: Vec<usize>,
    end: usize,
}

impl Components {
    spec fn of(self, path: Seq<char>) -> bool {
        let all = pieces(path);
        let indices = kept(all, all.len());
        &&& self.rooted == is_rooted(path)
        &&& views(self.names@) == names(path)
        &&& self.starts@.len() == indices.len()
        &&& forall|i: int|
            0 <= i < indices.len() ==> #[trigger] self.starts@[i] == piece_start(
                all,
                indices[i] as nat,
            )
        &&& self.end == components_end(path)
        &&& self.end <= path.len()
        &&& forall|i: int|
            0 <= i < indices.len() ==> #[trigger] self.starts@[i] + all[indices[i]].len()
                <= self.end
    }
}

fn components(path: &Vec<char>) -> (r: Components)
    ensures
        r.of(path@),
{
    broadcast use {lemma_views_push, lemma_views_empty};

    let split = split_fields(path, is_slash, Ghost(|c: char| c == '/'));
    let ghost all = pieces(path@);
    let rooted = path.len() > 0 && path[0] == '/';
    let mut names_out: Vec<Vec<char>> = Vec::new();
    let mut starts: Vec<usize> = Vec::new();
    let mut end: usize = if rooted { 1 } else { 0 };
    let mut start: usize = 0;
    let mut i: usize = 0;
    let size: usize = path.len();
    proof {
        lemma_pieces_length(path@);
    }
    while i < split.len()
        invariant
            i <= split@.len(),
            size == path@.len(),
            views(split@) == all,
            all == pieces(path@),
            piece_start(all, all.len()) == size + 1,
            i < all.len() ==> start == piece_start(all, i as nat),
            starts@.len() == kept(all, i as nat).len(),
            names_out@.len() == kept(all, i as nat).len(),
            forall|k: int|
                0 <= k < starts@.len() ==> #[trigger] starts@[k] == piece_start(
                    all,
                    kept(all, i as nat)[k] as nat,
                ),
            forall|k: int|
                0 <= k < starts@.len() ==> (#[trigger] names_out@[k])@ == all[kept(
                    all,
                    i as nat,
                )[k]],
            forall|k: int|
                0 <= k < starts@.len() ==> #[trigger] starts@[k] + all[kept(
                    all,
                    i as nat,
                )[k]].len() <= end,
            end <= size,
            rooted == is_rooted(path@),
            starts@.len() == 0 ==> end == (if rooted { 1int } else { 0int }),
            starts@.len() > 0 ==> end == piece_start(all, kept(all, i as nat).last() as nat)
                + all[kept(all, i as nat).last()].len(),
        decreases split@.len() - i,
    {
        let piece = &split[i];
        proof {
            assert(piece@ == all[i as int]);
            lemma_piece_start_monotonic(all, i as nat, all.len());
            lemma_kept_range(all, i as nat);
            if starts@.len() > 0 {
                lemma_piece_start_monotonic(all, kept(all, i as nat).last() as nat, i as nat);
            }
        }
        let dot = piece.len() == 1 && piece[0] == '.';
        proof {
            assert(dot == (piece@ == seq!['.'])) by {
                if dot {
                    assert(piece@ =~= seq!['.']);
                }
            }
        }
        if piece.len() > 0 && (!dot || i == 0) {
            starts.push(start);
            let mut copy: Vec<char> = Vec::new();
            let mut k: usize = 0;
            while k < piece.len()
                invariant
                    k <= piece@.len(),
                    copy@ == piece@.take(k as int),
                decreases piece@.len() - k,
            {
                proof {
                    assert(piece@.take(k + 1) =~= piece@.take(k as int).push(piece@[k as int]));
                }
                copy.push(piece[k]);
                k += 1;
            }
            proof {
                assert(piece@.take(k as int) =~= piece@);
            }
            names_out.push(copy);
            end = start + piece.len();
        }
        proof {
            lemma_kept_range(all, (i + 1) as nat);
            if i + 1 < all.len() {
                lemma_piece_start_monotonic(all, (i + 1) as nat, all.len());
            }
        }
        if i + 1 < split.len() {
            start = start + piece.len() + 1;
        }
        i += 1;
    }
    let r = Components { rooted, names: names_out, starts, end };
    proof {
        assert(views(r.names@) =~= names(path@));
    }
    r
}

fn same_names(a: &Vec<Vec<char>>, b: &Vec<Vec<char>>, n: usize) -> (r: bool)
    requires
        n <= a@.len(),
        n <= b@.len(),
    ensures
        r == (views(a@).take(n as int) == views(b@).take(n as int)),
{
    let mut i: usize = 0;
    while i < n
        invariant
            i <= n,
            n <= a@.len(),
            n <= b@.len(),
            forall|k: int| 0 <= k < i ==> views(a@)[k] == views(b@)[k],
        decreases n - i,
    {
        if !same_chars(&a[i], &b[i]) {
            proof {
                assert(views(a@).take(n as int)[i as int] == a@[i as int]@);
                assert(views(b@).take(n as int)[i as int] == b@[i as int]@);
            }
            return false;
        }
        i += 1;
    }
    proof {
        assert(views(a@).take(n as int) =~= views(b@).take(n as int));
    }
    true
}

/// Tests whether two texts denote the same path.
pub fn paths_equal(a: &str, b: &str) -> (r: bool)
    ensures
        r == same_path(a@, b@),
{
    let left = components(&chars_of(a));
    let right = components(&chars_of(b));
    proof {
        assert(left.of(a@));
        assert(right.of(b@));
    }
    if left.rooted != right.rooted || left.names.len() != right.names.len() {
        return false;
    }
    let n: usize = left.names.len();
    proof {
        assert(names(a@).take(n as int) =~= names(a@));
        assert(names(b@).take(n as int) =~= names(b@));
    }
    same_names(&left.names, &right.names, n)
}

/// The last component of `path` where it is a name, else all of `path`.
pub fn path_basename(path: &str) -> (r: String)
    ensures
        r@ == basename(path@),
{
    let parts = components(&chars_of(path));
    proof {
        assert(parts.of(path@));
    }
    let n: usize = parts.names.len();
    if n > 0 {
        let last = &parts.names[n - 1];
        proof {
            assert(last@ == names(path@).last());
        }
        let dot = last.len() == 1 && last[0] == '.';
        let dots = last.len() == 2 && last[0] == '.' && last[1] == '.';
        proof {
            if dot {
                assert(last@ =~= seq!['.']);
            }
            if dots {
                assert(last@ =~= seq!['.', '.']);
            }
        }
        if !dot && !dots {
            let r = text_of(last, 0, last.len());
            proof {
                assert(r@ =~= last@);
            }
            return r;
        }
    }
    path.to_owned()
}

/// The text of `path` behind the prefix `base`, or `None` where `base` is no prefix of it.
pub fn strip_path_prefix(path: &str, base: &str) -> (r: Option<String>)
    ensures
        match r {
            Some(rest) => is_path_prefix(base@, path@) && rest@ == path_rest(base@, path@),
            None => !is_path_prefix(base@, path@),
        },
{
    let chars = chars_of(path);
    let parts = components(&chars);
    let start = components(&chars_of(base));
    proof {
        assert(parts.of(path@));
        assert(start.of(base@));
    }
    let n: usize = start.names.len();
    proof {
        assert(names(base@).take(n as int) =~= names(base@));
    }
    if (start.rooted && !parts.rooted) || (n > 0 && start.rooted != parts.rooted)
        || n > parts.names.len() || !same_names(&parts.names, &start.names, n) {
        return None;
    }
    let from: usize = if n > 0 {
        proof {
            let all = pieces(path@);
            let indices = kept(all, all.len());
            assert(names(path@).len() == indices.len());
            assert(views(parts.names@)[n - 1] == parts.names@[n - 1]@);
            assert(names(path@)[n - 1] == all[indices[n - 1]]);
            assert(parts.starts@[n - 1] + all[indices[n - 1]].len() <= parts.end);
        }
        parts.starts[n - 1] + parts.names[n - 1].len()
    } else if !start.rooted {
        0
    } else if parts.starts.len() > 0 {
        parts.starts[0]
    } else {
        parts.end
    };
    Some(text_of(&chars, from, parts.end))
}

/// Whether `path` starts with a drive letter.
pub open spec fn has_drive(path: Seq<char>) -> bool {
    path.len() >= 2 && path[1] == ':' && ('a' <= path[0] <= 'z' || 'A' <= path[0] <= 'Z')
}

/// Character `i` of `path` in the form with slashes: a backslash becomes a slash, and the letter of
/// a drive is written large, since drives are the same in either case.
pub open spec fn slashed_char(path: Seq<char>, i: int) -> char {
    if path[i] == '\\' {
        '/'
    } else if i == 0 && has_drive(path) && 'a' <= path[0] <= 'z' {
        ((path[0] as u32 - 32) as u32) as char
    } else {
        path[i]
    }
}

/// A path of Windows in the form with slashes.
pub open spec fn slashed(path: Seq<char>) -> Seq<char> {
    Seq::new(path.len(), |i: int| slashed_char(path, i))
}

/// Brings a path of Windows into the form with slashes, in which its drive is its first component.
pub fn slashed_path(path: &str) -> (r: String)
    ensures
        r@ == slashed(path@),
{
    let chars = chars_of(path);
    let drive = chars.len() >= 2 && chars[1] == ':' && 'a' <= chars[0] && chars[0] <= 'z';
    let mut r = String::new();
    let mut i: usize = 0;
    while i < chars.len()
        invariant
            i <= chars@.len(),
            chars@ == path@,
            drive == (has_drive(path@) && 'a' <= path@[0] <= 'z'),
            r@.len() == i,
            forall|k: int| 0 <= k < i ==> #[trigger] r@[k] == slashed_char(path@, k),
        decreases chars@.len() - i,
    {
        let c: char = chars[i];
        if c == '\\' {
            r.push('/');
        } else if i == 0 && drive {
            r.push((c as u8 - 32) as char);
        } else {
            r.push(c);
        }
        i += 1;
    }
    proof {
        assert(r@ =~= slashed(path@));
    }
    r
}

/// A home directory and the text that stands for it in abbreviated paths.
#[derive(Debug)]
pub struct HomeDirectory {
    pub path: String,
    pub symbol: String,
}

/// The view of a [`HomeDirectory`].
#[verifier::ext_equal]
pub struct HomeModel {
    pub path: Seq<char>,
    pub symbol: Seq<char>,
}

impl View for HomeDirectory {
    type V = HomeModel;

    open spec fn view(&self) -> HomeModel {
        HomeModel { path: self.path@, symbol: self.symbol@ }
    }
}

/// `path` with a leading home directory replaced by the symbol for it: `/home/u/projects` becomes
/// `~/projects`, and the home directory itself `~`.
pub open spec fn abbreviated(path: Seq<char>, home: Option<HomeModel>) -> Seq<char> {
    match home {
        Some(h) => if is_path_prefix(h.path, path) {
            h.symbol + path_rest(h.path, path)
        } else {
            path
        },
        None => path,
    }
}

/// Replaces a leading home directory by the symbol for it. A path that is not under the home
/// directory, and every path where none is known, stays as it is.
pub fn abbreviate_home(path: &str, home: &Option<HomeDirectory>) -> (r: String)
    ensures
        r@ == abbreviated(path@, option_view(*home)),
{
    if let Some(h) = home {
        if let Some(rest) = strip_path_prefix(path, h.path.as_str()) {
            let mut r = h.symbol.clone();
            r.append(rest.as_str());
            return r;
        }
    }
    path.to_owned()
}

/// The variables of the environment that tell where the home directory is.
#[derive(Debug)]
pub struct HomeVariables {
    /// `HOME`.
    pub home: Option<String>,
    /// `USERPROFILE`.
    pub user_profile: Option<String>,
    /// `HOMEDRIVE`.
    pub home_drive: Option<String>,
    /// `HOMEPATH`.
    pub home_path: Option<String>,
}

/// The view of [`HomeVariables`].
pub struct HomeVariablesModel {
    pub home: Option<Seq<char>>,
    pub user_profile: Option<Seq<char>>,
    pub home_drive: Option<Seq<char>>,
    pub home_path: Option<Seq<char>>,
}

impl View for HomeVariables {
    type V = HomeVariablesModel;

    open spec fn view(&self) -> HomeVariablesModel {
        HomeVariablesModel {
            home: option_view(self.home),
            user_profile: option_view(self.user_profile),
            home_drive: option_view(self.home_drive),
            home_path: option_view(self.home_path),
        }
    }
}

impl HomeVariablesModel {
    /// The home directory: on Windows the user profile, else the home path on the home drive, and
    /// elsewhere the one that `HOME` names.
    pub open spec fn path(self, windows: bool) -> Option<Seq<char>> {
        if !windows {
            self.home
        } else if self.user_profile is Some {
            self.user_profile
        } else {
            match (self.home_drive, self.home_path) {
                (Some(drive), Some(path)) => Some(drive + path),
                _ => None,
            }
        }
    }
}

/// The text that stands for the home directory.
pub open spec fn home_symbol(windows: bool) -> Seq<char> {
    if windows {
        "%USERPROFILE%"@
    } else {
        "~"@
    }
}

/// The home directory, as far as the environment tells.
pub fn home_dir(variables: &HomeVariables, windows: bool) -> (r: Option<HomeDirectory>)
    ensures
        option_view(r) == (match variables@.path(windows) {
            Some(path) => Some(HomeModel { path, symbol: home_symbol(windows) }),
            None => None,
        }),
{
    if !windows {
        return match &variables.home {
            Some(path) => Some(HomeDirectory { path: path.clone(), symbol: "~".to_owned() }),
            None => None,
        };
    }
    let symbol = "%USERPROFILE%".to_owned();
    if let Some(path) = &variables.user_profile {
        return Some(HomeDirectory { path: path.clone(), symbol });
    }
    match (&variables.home_drive, &variables.home_path) {
        (Some(drive), Some(path)) => Some(
            HomeDirectory { path: concat_text(drive.as_str(), path.as_str()), symbol },
        ),
        _ => None,
    }
}

} // verus!
