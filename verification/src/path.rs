//! Unix paths as text.

use vstd::prelude::*;

use crate::text;

verus! {

/// The path of `name` inside `base`: an empty base is the current directory,
/// and no second slash follows a base that ends in one.
pub open spec fn joined(base: Seq<char>, name: Seq<char>) -> Seq<char> {
    if base.len() == 0 || base.last() == '/' {
        base + name
    } else {
        base + "/"@ + name
    }
}

/// The path of the relative name `name` inside `base`.
pub fn join(base: &str, name: &str) -> (r: String)
    ensures
        r@ == joined(base@, name@),
{
    let chars = text::chars_of(base);
    let n: usize = chars.len();
    if n == 0 || chars[n - 1] == '/' {
        text::concat2(base, name)
    } else {
        text::concat3(base, "/", name)
    }
}

/// Whether a piece between slashes counts: empty ones and a `.` do not, but
/// for a `.` that the path starts with.
pub open spec fn counts(piece: Seq<char>, first: bool) -> bool {
    piece.len() > 0 && (first || piece != "."@)
}

/// Those of the pieces between slashes that count.
pub open spec fn counted(pieces: Seq<Seq<char>>) -> Seq<Seq<char>>
    decreases pieces.len(),
{
    if pieces.len() == 0 {
        Seq::empty()
    } else {
        let front = counted(pieces.drop_last());
        if counts(pieces.last(), pieces.len() == 1) {
            front.push(pieces.last())
        } else {
            front
        }
    }
}

/// Whether two paths name the same place: both absolute or both relative, with
/// the same components.
pub open spec fn same_place(a: Seq<char>, b: Seq<char>) -> bool {
    &&& "/"@.is_prefix_of(a) == "/"@.is_prefix_of(b)
    &&& counted(text::split(a, '/')) == counted(text::split(b, '/'))
}

/// The components of a path.
fn components(p: &str) -> (r: Vec<String>)
    ensures
        text::texts(r@) == counted(text::split(p@, '/')),
{
    let pieces = text::split_on(p, '/');
    let ghost all = text::split(p@, '/');
    let mut out: Vec<String> = Vec::new();
    assert(text::texts(out@) =~= counted(all.take(0)));
    for i in 0..pieces.len()
        invariant
            all == text::texts(pieces@),
            text::texts(out@) == counted(all.take(i as int)),
    {
        assert(all.take(i + 1).drop_last() == all.take(i as int));
        assert(all.take(i + 1).last() == pieces@[i as int]@);
        let piece: &str = pieces[i].as_str();
        if !piece.is_empty() && (i == 0 || !text::same(piece, ".")) {
            let ghost before = out@;
            out.push(piece.to_owned());
            assert(text::texts(out@) =~= text::texts(before).push(piece@));
        }
    }
    assert(all.take(pieces@.len() as int) == all);
    out
}

/// Whether two lists of texts are equal.
fn same_list(a: &Vec<String>, b: &Vec<String>) -> (r: bool)
    ensures
        r == (text::texts(a@) == text::texts(b@)),
{
    if a.len() != b.len() {
        assert(text::texts(a@).len() != text::texts(b@).len());
        return false;
    }
    for i in 0..a.len()
        invariant
            a@.len() == b@.len(),
            forall|j: int| 0 <= j < i ==> (#[trigger] a@[j])@ == b@[j]@,
    {
        if !text::same(a[i].as_str(), b[i].as_str()) {
            assert(text::texts(a@)[i as int] != text::texts(b@)[i as int]);
            return false;
        }
    }
    assert(text::texts(a@) =~= text::texts(b@));
    true
}

/// Whether two paths name the same place.
pub fn same(a: &str, b: &str) -> (r: bool)
    ensures
        r == same_place(a@, b@),
{
    text::starts_with(a, "/") == text::starts_with(b, "/") && same_list(
        &components(a),
        &components(b),
    )
}

// ---------------------------------------------------------------------------
// Laws
// ---------------------------------------------------------------------------

/// A name inside a directory: the path starts with the directory, ends with the
/// name, and between them stands exactly one slash more than there was, unless the
/// directory ends in one or is the current one.
pub proof fn joining_adds_one_slash(base: Seq<char>, name: Seq<char>)
    ensures
        base.is_prefix_of(joined(base, name)),
        name.is_suffix_of(joined(base, name)),
        base.len() > 0 && base[base.len() - 1] != '/' ==> joined(base, name).len() == base.len() + 1
            + name.len() && joined(base, name)[base.len() as int] == '/',
        base.len() == 0 || base[base.len() - 1] == '/' ==> joined(base, name).len() == base.len()
            + name.len(),
{
    reveal_strlit("/");
    let all = joined(base, name);
    assert(all.subrange(0, base.len() as int) =~= base);
    assert(all.subrange(all.len() - name.len(), all.len() as int) =~= name);
}

/// Naming the same place is an equivalence.
pub proof fn same_place_is_an_equivalence(a: Seq<char>, b: Seq<char>, c: Seq<char>)
    ensures
        same_place(a, a),
        same_place(a, b) ==> same_place(b, a),
        same_place(a, b) && same_place(b, c) ==> same_place(a, c),
{
}

/// A slash at the end makes no other place.
pub proof fn final_slashes_do_not_matter(p: Seq<char>)
    requires
        p.len() > 0,
    ensures
        same_place(p.push('/'), p),
{
    reveal_strlit("/");
    let longer = p.push('/');
    assert(longer.drop_last() =~= p);
    text::split_is_not_empty(p, '/');
    assert(text::split(longer, '/').drop_last() =~= text::split(p, '/'));
    assert("/"@.is_prefix_of(longer) == "/"@.is_prefix_of(p)) by {
        assert(longer.subrange(0, 1) =~= p.subrange(0, 1));
    }
}

proof fn plain_pieces_count(pieces: Seq<Seq<char>>)
    requires
        forall|i: int| 0 <= i < pieces.len() ==> (#[trigger] pieces[i]).len() > 0,
        forall|i: int| 0 < i < pieces.len() ==> #[trigger] pieces[i] != "."@,
    ensures
        counted(pieces) == pieces,
    decreases pieces.len(),
{
    if pieces.len() > 0 {
        let front = pieces.drop_last();
        assert(forall|i: int| 0 <= i < front.len() ==> front[i] == #[trigger] pieces[i]);
        assert forall|i: int| 0 <= i < front.len() implies (#[trigger] front[i]).len() > 0 by {
            assert(pieces[i].len() > 0);
        }
        assert forall|i: int| 0 < i < front.len() implies #[trigger] front[i] != "."@ by {
            assert(pieces[i] != "."@);
        }
        plain_pieces_count(front);
        assert(pieces.last() == pieces[pieces.len() - 1]);
        assert(front.push(pieces.last()) =~= pieces);
    }
}

/// Whether a path is written plainly: no empty pieces between its slashes, and no
/// piece that is a dot.
pub open spec fn is_plainly_written(p: Seq<char>) -> bool {
    let pieces = text::split(p, '/');
    &&& forall|i: int| 0 <= i < pieces.len() ==> (#[trigger] pieces[i]).len() > 0
    &&& forall|i: int| 0 < i < pieces.len() ==> #[trigger] pieces[i] != "."@
}

/// Two relative paths that are written plainly name the same place only where they
/// are the same text.
pub proof fn different_paths_are_different_places(a: Seq<char>, b: Seq<char>)
    requires
        is_plainly_written(a),
        is_plainly_written(b),
        same_place(a, b),
    ensures
        a == b,
{
    plain_pieces_count(text::split(a, '/'));
    plain_pieces_count(text::split(b, '/'));
    text::split_cuts_at_separators(a, '/');
    text::split_cuts_at_separators(b, '/');
}

/// An absolute path and a relative one are never the same place, and two absolute
/// paths that are written plainly are so only where they are the same text.
pub proof fn absolute_paths_are_their_own(a: Seq<char>, b: Seq<char>)
    ensures
        b.len() == 0 || b[0] != '/' ==> !same_place("/"@ + a, b) && !same_place(b, "/"@ + a),
        is_plainly_written(a) && is_plainly_written(b) && a[0] != '.' && b[0] != '.' && same_place(
            "/"@ + a,
            "/"@ + b,
        ) ==> a == b,
{
    reveal_strlit("/");
    reveal_strlit(".");
    let x = "/"@ + a;
    let y = "/"@ + b;
    assert(x.subrange(0, 1) =~= "/"@);
    if b.len() > 0 && "/"@.is_prefix_of(b) {
        assert(b.subrange(0, 1)[0] == b[0]);
    }
    if is_plainly_written(a) && is_plainly_written(b) && a[0] != '.' && b[0] != '.' && same_place(
        x,
        y,
    ) {
        rooted_pieces(a);
        rooted_pieces(b);
        rooted_count(a);
        rooted_count(b);
        text::split_cuts_at_separators(a, '/');
        text::split_cuts_at_separators(b, '/');
    }
}

/// The pieces of an absolute path: an empty one, and those of the rest.
proof fn rooted_pieces(a: Seq<char>)
    ensures
        text::split("/"@ + a, '/') == seq![Seq::<char>::empty()] + text::split(a, '/'),
    decreases a.len(),
{
    reveal_strlit("/");
    let x = "/"@ + a;
    if a.len() == 0 {
        assert(x =~= "/"@);
        assert(x.drop_last() =~= Seq::<char>::empty());
        reveal_with_fuel(text::split, 2);
        assert(text::split(x, '/') =~= seq![Seq::<char>::empty()] + text::split(a, '/'));
    } else {
        rooted_pieces(a.drop_last());
        text::split_is_not_empty(a.drop_last(), '/');
        assert(x.drop_last() =~= "/"@ + a.drop_last());
        assert(x.last() == a.last());
        assert(text::split(x, '/') =~= seq![Seq::<char>::empty()] + text::split(a, '/'));
    }
}

proof fn rooted_count(a: Seq<char>)
    requires
        is_plainly_written(a),
        a[0] != '.',
    ensures
        counted(seq![Seq::<char>::empty()] + text::split(a, '/')) == text::split(a, '/'),
{
    reveal_strlit(".");
    let pieces = text::split(a, '/');
    text::split_is_not_empty(a, '/');
    assert(pieces[0].len() > 0);
    assert(pieces[0] != "."@) by {
        if pieces[0] == "."@ {
            first_piece_starts(a);
            assert(a.subrange(0, 1)[0] == a[0]);
        }
    }
    rest_counts(pieces);
}

/// The first piece of a path is its start.
proof fn first_piece_starts(a: Seq<char>)
    ensures
        text::split(a, '/').len() > 0,
        text::split(a, '/')[0].is_prefix_of(a),
    decreases a.len(),
{
    text::split_is_not_empty(a, '/');
    if a.len() > 0 {
        first_piece_starts(a.drop_last());
        let front = text::split(a.drop_last(), '/');
        let piece = text::split(a, '/')[0];
        if a.last() != '/' && front.len() == 1 {
            text::split_cuts_at_separators(a.drop_last(), '/');
            assert(front[0] == a.drop_last());
            assert(piece =~= a);
            assert(a.subrange(0, a.len() as int) =~= a);
        } else {
            assert(piece == front[0]);
            assert(a.subrange(0, piece.len() as int) =~= a.drop_last().subrange(
                0,
                piece.len() as int,
            ));
        }
    }
}

proof fn rest_counts(pieces: Seq<Seq<char>>)
    requires
        forall|i: int| 0 <= i < pieces.len() ==> (#[trigger] pieces[i]).len() > 0 && pieces[i]
            != "."@,
    ensures
        counted(seq![Seq::<char>::empty()] + pieces) == pieces,
    decreases pieces.len(),
{
    let all = seq![Seq::<char>::empty()] + pieces;
    if pieces.len() == 0 {
        assert(all =~= seq![Seq::<char>::empty()]);
        assert(all.drop_last() =~= Seq::<Seq<char>>::empty());
        reveal_with_fuel(counted, 2);
        assert(counted(all) =~= pieces);
    } else {
        let front = pieces.drop_last();
        assert forall|i: int| 0 <= i < front.len() implies (#[trigger] front[i]).len() > 0
            && front[i] != "."@ by {
            assert(front[i] == pieces[i]);
        }
        rest_counts(front);
        assert(all.drop_last() =~= seq![Seq::<char>::empty()] + front);
        assert(all.last() == pieces[pieces.len() - 1]);
        assert(front.push(pieces.last()) =~= pieces);
    }
}

/// Joining and comparing, from end to end: what is joined to a directory is no longer
/// that directory, and is itself the same place with or without a slash at its end.
pub proof fn joined_paths_are_compared(
    base: &str,
    name: &str,
    r: String,
    a: &str,
    b: &str,
    same_ab: bool,
)
    requires
        call_ensures(join, (base, name), r),
        call_ensures(same, (a, b), same_ab),
    ensures
        base@.is_prefix_of(r@),
        name@.is_suffix_of(r@),
        base@.len() > 0 && base@[base@.len() - 1] != '/' ==> r@ == base@.push('/') + name@,
        base@.len() == 0 ==> r@ == name@,
        a@ == b@ ==> same_ab,
        a@.len() > 0 && b@ == a@.push('/') ==> same_ab,
        is_plainly_written(a@) && is_plainly_written(b@) ==> (same_ab <==> a@ == b@),
{
    reveal_strlit("/");
    joining_adds_one_slash(base@, name@);
    if base@.len() > 0 && base@[base@.len() - 1] != '/' {
        assert(r@ =~= base@.push('/') + name@);
    }
    if base@.len() == 0 {
        assert(r@ =~= name@);
    }
    if a@.len() > 0 && b@ == a@.push('/') {
        final_slashes_do_not_matter(a@);
    }
    if is_plainly_written(a@) && is_plainly_written(b@) && same_ab {
        different_paths_are_different_places(a@, b@);
    }
}

} // verus!
