//! Paths as sequences of components.
//!
//! Two spellings of a path are the same path if their components are: empty
//! components and `.` after the first do not count.
use vstd::prelude::*;
use vstd::string::StrSliceExecFns;
use crate::model;
use crate::text;

verus! {

pub open spec fn is_absolute(s: Seq<char>) -> bool {
    s.len() > 0 && s[0] == '/'
}

/// A component that names something: neither empty nor `.`.
pub open spec fn is_solid(part: Seq<char>) -> bool {
    part.len() > 0 && part != "."@
}

pub open spec fn solid(pieces: Seq<Seq<char>>) -> Seq<Seq<char>>
    decreases pieces.len(),
{
    if pieces.len() == 0 {
        pieces
    } else if is_solid(pieces.last()) {
        solid(pieces.drop_last()).push(pieces.last())
    } else {
        solid(pieces.drop_last())
    }
}

/// The components of a path that name something, `..` among them.
pub open spec fn parts(s: Seq<char>) -> Seq<Seq<char>> {
    solid(model::components(s))
}

/// A relative path that starts with `.`.
pub open spec fn starts_here(s: Seq<char>) -> bool {
    !is_absolute(s) && model::components(s)[0] == "."@
}

/// A path that goes up somewhere.
pub open spec fn goes_up(s: Seq<char>) -> bool {
    parts(s).contains(".."@)
}

/// An absolute path that is `prefix` (an absolute path too) or below it.
pub open spec fn is_under(s: Seq<char>, prefix: Seq<char>) -> bool {
    &&& is_absolute(s)
    &&& parts(prefix).len() <= parts(s).len()
    &&& parts(s).take(parts(prefix).len() as int) == parts(prefix)
}

/// The same path, whatever the spelling.
pub open spec fn same_path(a: Seq<char>, b: Seq<char>) -> bool {
    is_absolute(a) == is_absolute(b) && parts(a) == parts(b) && starts_here(a) == starts_here(b)
}

/// Joining two paths with a slash joins their pieces.
pub proof fn lemma_components_join(a: Seq<char>, b: Seq<char>)
    ensures
        model::components(a + "/"@ + b) == model::components(a) + model::components(b),
    decreases a.len(),
{
    reveal_strlit("/");
    let s = a + "/"@ + b;
    let k = text::before(a, '/');
    text::lemma_before(a, '/');
    if k >= a.len() {
        assert(s[a.len() as int] == '/');
        text::lemma_before_is(s, '/', a.len());
        assert(s.take(a.len() as int) =~= a);
        assert(s.skip(a.len() as int + 1) =~= b);
        assert(seq![a] + model::components(b) == model::components(a) + model::components(b));
    } else {
        assert(s[k as int] == a[k as int]);
        text::lemma_before_is(s, '/', k);
        assert(s.take(k as int) =~= a.take(k as int));
        let rest = a.skip(k as int + 1);
        assert(s.skip(k as int + 1) =~= rest + "/"@ + b);
        lemma_components_join(rest, b);
        assert(model::components(s) =~= model::components(a) + model::components(b));
    }
}

pub proof fn lemma_solid_concat(x: Seq<Seq<char>>, y: Seq<Seq<char>>)
    ensures
        solid(x + y) == solid(x) + solid(y),
    decreases y.len(),
{
    if y.len() == 0 {
        assert(x + y =~= x);
        assert(solid(x) + solid(y) =~= solid(x));
    } else {
        assert((x + y).drop_last() =~= x + y.drop_last());
        lemma_solid_concat(x, y.drop_last());
        assert(solid(x + y) =~= solid(x) + solid(y));
    }
}

/// Joining two paths with a slash joins what they name.
pub proof fn lemma_parts_join(a: Seq<char>, b: Seq<char>)
    ensures
        parts(a + "/"@ + b) == parts(a) + parts(b),
{
    lemma_components_join(a, b);
    lemma_solid_concat(model::components(a), model::components(b));
}

/// The pieces between slashes.
pub fn pieces_of(s: &str) -> (r: Vec<String>)
    ensures
        text::texts(r@) == model::components(s@),
        r@.len() > 0,
{
    let v = text::chars_of(s);
    let n: usize = v.len();
    let mut out: Vec<String> = Vec::new();
    let mut at: usize = 0;
    assert(v@.skip(0) =~= s@);
    assert(text::texts(out@) + model::components(v@.skip(0)) =~= model::components(s@));
    loop
        invariant_except_break
            at <= n,
            n == v@.len(),
            text::texts(out@) + model::components(v@.skip(at as int)) == model::components(s@),
        ensures
            text::texts(out@) == model::components(s@),
            out@.len() > 0,
        decreases n - at,
    {
        let ghost rest = v@.skip(at as int);
        let ghost before = out@;
        let end: usize = text::find_char(v.as_slice(), at, n, '/');
        assert(v@.subrange(at as int, n as int) =~= rest);
        proof {
            text::lemma_before(rest, '/');
        }
        let piece = text::string_of(v.as_slice(), at, end);
        assert(piece@ =~= rest.take(end - at));
        out.push(piece);
        assert(text::texts(out@) =~= text::texts(before).push(rest.take(end - at)));
        if end >= n {
            assert(rest.take(end - at) =~= rest);
            assert(text::texts(out@) =~= text::texts(before) + model::components(rest));
            break;
        }
        assert(rest.skip(end - at + 1) =~= v@.skip(end + 1));
        assert(text::texts(out@) + model::components(v@.skip(end + 1)) =~= text::texts(before)
            + model::components(rest));
        at = end + 1;
    }
    out
}

/// The components of a path that name something.
pub fn parts_of(s: &str) -> (r: Vec<String>)
    ensures
        text::texts(r@) == parts(s@),
{
    let pieces = pieces_of(s);
    let ghost all = text::texts(pieces@);
    let mut out: Vec<String> = Vec::new();
    let mut i: usize = 0;
    assert(all.take(0) =~= Seq::<Seq<char>>::empty());
    assert(text::texts(out@) =~= Seq::<Seq<char>>::empty());
    while i < pieces.len()
        invariant
            i <= pieces@.len(),
            all == text::texts(pieces@),
            text::texts(out@) == solid(all.take(i as int)),
        decreases pieces@.len() - i,
    {
        let ghost next = all.take(i + 1);
        assert(next.drop_last() =~= all.take(i as int));
        assert(next.last() == pieces@[i as int]@);
        let p = pieces[i].as_str();
        if p.unicode_len() > 0 && !text::same(p, ".") {
            let ghost before = out@;
            out.push(p.to_owned());
            assert(text::texts(out@) =~= text::texts(before).push(all[i as int]));
        }
        i = i + 1;
    }
    assert(all.take(i as int) =~= all);
    out
}

pub fn absolute(s: &str) -> (r: bool)
    ensures
        r == is_absolute(s@),
{
    s.unicode_len() > 0 && s.get_char(0) == '/'
}

pub fn here(s: &str) -> (r: bool)
    ensures
        r == starts_here(s@),
{
    if absolute(s) {
        return false;
    }
    let pieces = pieces_of(s);
    assert(text::texts(pieces@)[0] == pieces@[0]@);
    text::same(pieces[0].as_str(), ".")
}

pub fn up(s: &str) -> (r: bool)
    ensures
        r == goes_up(s@),
{
    let list = parts_of(s);
    text::listed(&list, "..")
}

/// Whether the first texts of a list are those of another.
fn begins(list: &Vec<String>, prefix: &Vec<String>) -> (r: bool)
    ensures
        r == (text::texts(prefix@).len() <= text::texts(list@).len() && text::texts(list@).take(
            text::texts(prefix@).len() as int,
        ) == text::texts(prefix@)),
{
    let ghost l = text::texts(list@);
    let ghost p = text::texts(prefix@);
    if prefix.len() > list.len() {
        return false;
    }
    let mut i: usize = 0;
    while i < prefix.len()
        invariant
            i <= prefix@.len() <= list@.len(),
            l == text::texts(list@),
            p == text::texts(prefix@),
            forall|j: int| 0 <= j < i ==> #[trigger] l[j] == p[j],
        decreases prefix@.len() - i,
    {
        assert(l[i as int] == list@[i as int]@ && p[i as int] == prefix@[i as int]@);
        if !text::same(list[i].as_str(), prefix[i].as_str()) {
            assert(l.take(p.len() as int)[i as int] != p[i as int]);
            return false;
        }
        i = i + 1;
    }
    assert(l.take(p.len() as int) =~= p);
    true
}

pub fn under(s: &str, prefix: &str) -> (r: bool)
    ensures
        r == is_under(s@, prefix@),
{
    let a = parts_of(s);
    let b = parts_of(prefix);
    absolute(s) && begins(&a, &b)
}

/// Whether two lists hold the same texts.
pub fn same_lists(a: &Vec<String>, b: &Vec<String>) -> (r: bool)
    ensures
        r == (text::texts(a@) == text::texts(b@)),
{
    let r = a.len() == b.len() && begins(a, b);
    proof {
        let x = text::texts(a@);
        let y = text::texts(b@);
        if a@.len() == b@.len() {
            assert(x.take(y.len() as int) =~= x);
        } else {
            assert(x.len() != y.len());
        }
    }
    r
}

// ---------------------------------------------------------------------------
// What holds of paths
// ---------------------------------------------------------------------------

/// A path names what its pieces name, in their order: empty pieces and `.` name nothing.
pub proof fn law_a_path_names_its_pieces(a: Seq<char>, piece: Seq<char>)
    requires
        !piece.contains('/'),
    ensures
        piece.len() > 0 && piece != "."@ ==> {
            &&& parts(piece) == seq![piece]
            &&& parts(a + "/"@ + piece) == parts(a).push(piece)
            &&& parts("/"@ + piece) == seq![piece]
        },
        piece.len() == 0 || piece == "."@ ==> {
            &&& parts(piece) == Seq::<Seq<char>>::empty()
            &&& parts(a + "/"@ + piece) == parts(a)
        },
{
    reveal_strlit("/");
    reveal_strlit(".");
    lemma_piece(piece);
    lemma_parts_join(a, piece);
    let none = Seq::<char>::empty();
    assert(!none.contains('/'));
    lemma_piece(none);
    lemma_parts_join(none, piece);
    assert(none + "/"@ + piece =~= "/"@ + piece);
    if is_solid(piece) {
        assert(parts(a) + seq![piece] =~= parts(a).push(piece));
        assert(Seq::<Seq<char>>::empty() + seq![piece] =~= seq![piece]);
    } else {
        assert(parts(a) + Seq::<Seq<char>>::empty() =~= parts(a));
    }
}

proof fn lemma_piece(piece: Seq<char>)
    requires
        !piece.contains('/'),
    ensures
        parts(piece) == if is_solid(piece) {
            seq![piece]
        } else {
            Seq::empty()
        },
        model::components(piece) == seq![piece],
{
    text::lemma_before(piece, '/');
    if text::before(piece, '/') < piece.len() {
        assert(piece.contains(piece[text::before(piece, '/') as int]));
    }
    let one = seq![piece];
    assert(model::components(piece) =~= one);
    assert(one.drop_last() =~= Seq::<Seq<char>>::empty());
    assert(solid(one.drop_last()) =~= Seq::<Seq<char>>::empty());
    assert(one.last() == piece);
    assert(Seq::<Seq<char>>::empty().push(piece) =~= one);
}

/// What is below an absolute path is what starts with its pieces; a path is below itself,
/// and whatever is joined to it is below it.
pub proof fn law_what_is_below_a_path(s: Seq<char>, prefix: Seq<char>, rest: Seq<char>)
    requires
        is_absolute(prefix),
    ensures
        is_under(prefix, prefix),
        is_under(prefix + "/"@ + rest, prefix),
        is_under(s, prefix) ==> is_absolute(s) && exists|more: Seq<Seq<char>>|
            parts(s) == #[trigger] (parts(prefix) + more),
        is_under(s, "/home"@) <==> s.len() > 0 && s[0] == '/' && parts(s).len() > 0 && parts(s)[0]
            == "home"@,
        is_under(s, "/opt/ferrum/plugins"@) <==> s.len() > 0 && s[0] == '/' && parts(s).len() >= 3
            && parts(s)[0] == "opt"@ && parts(s)[1] == "ferrum"@ && parts(s)[2] == "plugins"@,
{
    reveal_strlit("/");
    let n = parts(prefix).len() as int;
    assert(parts(prefix).take(n) =~= parts(prefix));
    lemma_parts_join(prefix, rest);
    let joined = prefix + "/"@ + rest;
    assert(joined[0] == prefix[0]);
    assert(parts(joined).take(n) =~= parts(prefix));
    if is_under(s, prefix) {
        assert(parts(s) =~= parts(prefix) + parts(s).skip(n));
    }
    lemma_known_places();
    if parts(s).len() > 0 {
        assert(parts(s).take(1) =~= seq![parts(s)[0]]);
    }
    if parts(s).len() >= 3 {
        assert(parts(s).take(3) =~= seq![parts(s)[0], parts(s)[1], parts(s)[2]]);
    }
    assert(seq!["home"@][0] == "home"@);
    let three = seq!["opt"@, "ferrum"@, "plugins"@];
    assert(three[0] == "opt"@ && three[1] == "ferrum"@ && three[2] == "plugins"@);
}

proof fn lemma_known_places()
    ensures
        is_absolute("/home"@),
        is_absolute("/opt/ferrum/plugins"@),
        parts("/home"@) == seq!["home"@],
        parts("/opt/ferrum/plugins"@) == seq!["opt"@, "ferrum"@, "plugins"@],
{
    reveal_strlit("/");
    reveal_strlit(".");
    reveal_strlit("/home");
    reveal_strlit("home");
    reveal_strlit("opt");
    reveal_strlit("ferrum");
    reveal_strlit("plugins");
    reveal_strlit("/opt/ferrum/plugins");
    let a = "/"@ + "opt"@;
    let b = a + "/"@ + "ferrum"@;
    law_a_path_names_its_pieces(a, "home"@);
    assert("/home"@ =~= "/"@ + "home"@);
    law_a_path_names_its_pieces(a, "opt"@);
    law_a_path_names_its_pieces(a, "ferrum"@);
    law_a_path_names_its_pieces(b, "plugins"@);
    assert("/opt/ferrum/plugins"@ =~= b + "/"@ + "plugins"@);
    assert(seq!["opt"@].push("ferrum"@).push("plugins"@) =~= seq![
        "opt"@,
        "ferrum"@,
        "plugins"@,
    ]);
}

/// A path goes up exactly if one of its pieces is `..`, and starts with `.` exactly if its
/// first piece is that and it is relative.
pub proof fn law_when_a_path_goes_up(a: Seq<char>, b: Seq<char>)
    ensures
        goes_up(a + "/"@ + ".."@ + "/"@ + b),
        goes_up(a + "/"@ + ".."@),
        goes_up(".."@),
        goes_up(a + "/"@ + b) <==> goes_up(a) || goes_up(b),
        !a.contains('/') ==> (goes_up(a) <==> a == ".."@),
        !a.contains('/') ==> (starts_here(a + "/"@ + b) <==> a == "."@),
        !a.contains('/') ==> (starts_here(a) <==> a == "."@),
{
    reveal_strlit("/");
    reveal_strlit("..");
    reveal_strlit(".");
    lemma_up_join(a, b);
    lemma_up_join(a, ".."@);
    lemma_up_join(a + "/"@ + ".."@, b);
    lemma_piece(".."@);
    assert(seq![".."@][0] == ".."@);
    assert(parts(".."@).contains(".."@));
    if !a.contains('/') {
        lemma_piece(a);
        lemma_components_join(a, b);
        let joined = a + "/"@ + b;
        assert(model::components(joined)[0] == a);
        if is_solid(a) {
            assert(parts(a)[0] == a);
        }
        if a.len() > 0 {
            assert(joined[0] == a[0]);
            if a[0] == '/' {
                assert(a.contains(a[0]));
            }
        } else {
            assert(joined[0] == '/');
        }
    }
}

proof fn lemma_up_join(a: Seq<char>, b: Seq<char>)
    ensures
        goes_up(a + "/"@ + b) <==> goes_up(a) || goes_up(b),
{
    lemma_parts_join(a, b);
    let x = parts(a);
    let y = parts(b);
    if goes_up(a + "/"@ + b) {
        let i = choose|i: int| 0 <= i < (x + y).len() && (x + y)[i] == ".."@;
        if i < x.len() {
            assert(x[i] == ".."@);
        } else {
            assert(y[i - x.len()] == ".."@);
        }
    }
    if goes_up(a) {
        let i = choose|i: int| 0 <= i < x.len() && x[i] == ".."@;
        assert((x + y)[i] == ".."@);
    }
    if goes_up(b) {
        let i = choose|i: int| 0 <= i < y.len() && y[i] == ".."@;
        assert((x + y)[i + x.len()] == ".."@);
    }
}

/// Two spellings are of the same path exactly if both are absolute or both are relative,
/// they name the same pieces, and both start with `.` or neither does.
pub proof fn law_when_two_paths_are_the_same(a: Seq<char>, b: Seq<char>)
    ensures
        same_path(a, b) <==> (is_absolute(a) <==> is_absolute(b)) && parts(a) == parts(b) && (
        starts_here(a) <==> starts_here(b)),
        same_path(a, a),
{
}


} // verus!
