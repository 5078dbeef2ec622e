//! What the operations on paths give, in terms of the texts of the paths.

use vstd::prelude::*;
use crate::paths::{
    abbreviated, basename, component_end, components_end, is_component, is_path_prefix, is_rooted,
    kept, lemma_kept_range, lemma_piece_start_prefix, lemma_pieces_length, names, path_rest,
    piece_start, pieces, HomeModel,
};
use crate::text::lemma_fields_parted;
use crate::text_laws::lemma_one_field;

verus! {

proof fn lemma_pieces_joined(a: Seq<char>, b: Seq<char>)
    ensures
        pieces(a.push('/') + b) == pieces(a) + pieces(b),
{
    lemma_fields_parted(a, '/', b, |c: char| c == '/');
}

proof fn lemma_kept_front(a: Seq<Seq<char>>, b: Seq<Seq<char>>, n: nat)
    requires
        n <= a.len(),
        n <= b.len(),
        forall|i: int| 0 <= i < n ==> a[i] == #[trigger] b[i],
    ensures
        kept(a, n) == kept(b, n),
    decreases n,
{
    if n > 0 {
        assert(a[n - 1] == b[n - 1]);
        lemma_kept_front(a, b, (n - 1) as nat);
    }
}

proof fn lemma_kept_grows(all: Seq<Seq<char>>, m: nat, n: nat)
    requires
        m <= n,
    ensures
        kept(all, m).len() <= kept(all, n).len(),
        kept(all, n).take(kept(all, m).len() as int) == kept(all, m),
    decreases n,
{
    let front = kept(all, m);
    if m < n {
        lemma_kept_grows(all, m, (n - 1) as nat);
        let before = kept(all, (n - 1) as nat);
        assert(kept(all, n).take(front.len() as int) =~= before.take(front.len() as int));
    } else {
        assert(front.take(front.len() as int) =~= front);
    }
}

/// Whether `name` is a name in a path: not empty, without a slash, and neither `.` nor `..`.
pub open spec fn is_name(name: Seq<char>) -> bool {
    &&& name.len() > 0
    &&& forall|i: int| 0 <= i < name.len() ==> #[trigger] name[i] != '/'
    &&& name != seq!['.']
    &&& name != seq!['.', '.']
}

/// The name of what lies in a directory is what stands behind the last slash.
pub proof fn lemma_basename(directory: Seq<char>, name: Seq<char>)
    requires
        is_name(name),
    ensures
        basename(directory.push('/') + name) == name,
        basename(name) == name,
{
    lemma_one_field(name, |c: char| c == '/');
    lemma_pieces_joined(directory, name);
    lemma_pieces_length(directory);
    let whole = directory.push('/') + name;
    let all = pieces(whole);
    assert(all.last() == name);
    assert(is_component(all, all.len() - 1));
    assert(names(whole).last() == name);
    let single = pieces(name);
    assert(single[0] == name);
    assert(is_component(single, 0));
    assert(names(name).last() == name);
}

proof fn lemma_ends_in_component(path: Seq<char>)
    requires
        is_component(pieces(path), pieces(path).len() - 1),
    ensures
        kept(pieces(path), pieces(path).len()).len() > 0,
        kept(pieces(path), pieces(path).len()).last() == pieces(path).len() - 1,
        components_end(path) == path.len(),
{
    let all = pieces(path);
    lemma_pieces_length(path);
    assert(piece_start(all, all.len()) == piece_start(all, (all.len() - 1) as nat) + all[all.len()
        - 1].len() + 1);
}

proof fn lemma_below(home: Seq<char>, rest: Seq<char>)
    requires
        is_rooted(home),
        is_component(pieces(home), pieces(home).len() - 1),
        is_component(pieces(rest), pieces(rest).len() - 1),
        rest.len() > 0 && (pieces(rest).len() > 1 || pieces(rest)[0] != seq!['.']),
    ensures
        is_path_prefix(home, home.push('/') + rest),
        path_rest(home, home.push('/') + rest) == seq!['/'] + rest,
{
    let path = home.push('/') + rest;
    let all = pieces(path);
    let front = pieces(home);
    lemma_pieces_joined(home, rest);
    lemma_pieces_length(home);
    lemma_pieces_length(rest);
    lemma_pieces_length(path);
    assert(forall|i: int| 0 <= i < front.len() ==> front[i] == #[trigger] all[i]);
    lemma_kept_front(front, all, front.len());
    lemma_kept_grows(all, front.len(), all.len());
    lemma_kept_range(all, all.len());
    lemma_kept_range(front, front.len());
    lemma_ends_in_component(home);
    let indices = kept(all, all.len());
    let own = kept(front, front.len());
    let n = own.len() as int;
    assert forall|i: int| 0 <= i < n implies #[trigger] indices[i] == own[i] by {
        assert(indices.take(n)[i] == own[i]);
    }
    assert(names(path).take(n) =~= names(home)) by {
        assert forall|i: int| 0 <= i < n implies names(path).take(n)[i] == names(home)[i] by {
            assert(indices[i] == own[i]);
        }
    }
    assert(path[0] == home[0]);
    assert(all.last() == pieces(rest).last());
    assert(is_component(all, all.len() - 1));
    lemma_ends_in_component(path);
    assert(indices[n - 1] == front.len() - 1);
    lemma_piece_start_prefix(all, front, (front.len() - 1) as nat);
    assert(piece_start(front, front.len()) == piece_start(front, (front.len() - 1) as nat)
        + front[front.len() - 1].len() + 1);
    assert(component_end(path, n - 1) == home.len());
    assert(path.subrange(home.len() as int, path.len() as int) =~= seq!['/'] + rest);
}

/// What lies below the home directory is shown with the symbol in its place, and the slash and all
/// behind it as they are; the home directory itself is shown as the symbol. Without a known home
/// directory every path is shown as it is.
pub proof fn lemma_abbreviated(home: HomeModel, rest: Seq<char>, path: Seq<char>)
    requires
        is_rooted(home.path),
        is_component(pieces(home.path), pieces(home.path).len() - 1),
        is_component(pieces(rest), pieces(rest).len() - 1),
        rest.len() > 0 && (pieces(rest).len() > 1 || pieces(rest)[0] != seq!['.']),
    ensures
        abbreviated(home.path.push('/') + rest, Some(home)) == home.symbol + seq!['/'] + rest,
        abbreviated(home.path, Some(home)) == home.symbol,
        abbreviated(path, None) == path,
{
    lemma_below(home.path, rest);
    assert(home.symbol + (seq!['/'] + rest) =~= home.symbol + seq!['/'] + rest);
    lemma_ends_in_component(home.path);
    let own = names(home.path);
    assert(own.take(own.len() as int) =~= own);
    let all = pieces(home.path);
    let n = own.len() as int;
    lemma_pieces_length(home.path);
    assert(component_end(home.path, n - 1) == home.path.len()) by {
        assert(piece_start(all, all.len()) == piece_start(all, (all.len() - 1) as nat) + all[
            all.len() - 1].len() + 1);
    }
    assert(path_rest(home.path, home.path) =~= Seq::<char>::empty());
    assert(home.symbol + Seq::<char>::empty() =~= home.symbol);
}

/// A path that starts otherwise than the home directory is shown as it is.
pub proof fn lemma_not_abbreviated(home: HomeModel, path: Seq<char>, i: int)
    requires
        0 <= i < names(home.path).len(),
        i >= names(path).len() || names(path)[i] != names(home.path)[i],
    ensures
        abbreviated(path, Some(home)) == path,
{
    if is_path_prefix(home.path, path) {
        assert(names(path).take(names(home.path).len() as int)[i] == names(path)[i]);
    }
}

} // verus!
