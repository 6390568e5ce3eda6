//! Paths as lists of components, and the containment rule every capability shares.
use vstd::prelude::*;
use vstd::string::StringExecFns;

use crate::text::{
    cut, join, join_of, lemma_cut, lemma_split_cuts_at_separators, lemma_split_of_joined,
    same_texts, split, split_of, str_eq, swap_char, swap_char_of, texts, to_chars,
};

verus! {

/// A path that the file system has resolved: how it is shown, and its components from the
/// root down.
#[derive(Clone, Debug)]
pub struct Location {
    pub display: String,
    pub components: Vec<String>,
}

impl Location {
    /// The texts of the components, from the root down.
    pub open spec fn parts(self) -> Seq<Seq<char>> {
        texts(self.components@)
    }

    /// The path is `root` itself or lies below it.
    pub open spec fn within(self, root: Location) -> bool {
        &&& root.parts().len() <= self.parts().len()
        &&& self.parts().take(root.parts().len() as int) == root.parts()
    }

    /// Whether the path is `root` itself or lies below it, component by component.
    pub fn is_within(&self, root: &Location) -> (r: bool)
        ensures
            r == self.within(*root),
    {
        let n: usize = root.components.len();
        if n > self.components.len() {
            return false;
        }
        let mut i: usize = 0;
        while i < n
            invariant
                n == root.components@.len(),
                n <= self.components@.len(),
                i <= n,
                forall|k: int|
                    0 <= k < i ==> (#[trigger] self.components@[k])@ == root.components@[k]@,
            decreases n - i,
        {
            if !str_eq(self.components[i].as_str(), root.components[i].as_str()) {
                assert(self.parts().take(n as int)[i as int] != root.parts()[i as int]);
                return false;
            }
            i += 1;
        }
        assert(self.parts().take(n as int) =~= root.parts());
        true
    }
}

pub fn copy_location(path: &Location) -> (r: Location)
    ensures
        r.display@ == path.display@,
        r.parts() == path.parts(),
{
    let mut components: Vec<String> = Vec::new();
    let mut i: usize = 0;
    while i < path.components.len()
        invariant
            i <= path.components@.len(),
            components@.len() == i,
            forall|k: int| 0 <= k < i ==> (#[trigger] components@[k])@ == path.components@[k]@,
        decreases path.components@.len() - i,
    {
        components.push(path.components[i].clone());
        i += 1;
    }
    let copy = Location { display: path.display.clone(), components };
    assert(copy.parts() =~= path.parts());
    copy
}

/// A path lies within itself, and within every path that holds a path it lies within.
pub proof fn lemma_within_is_transitive(inner: Location, middle: Location, outer: Location)
    ensures
        inner.within(inner),
        inner.within(middle) && middle.within(outer) ==> inner.within(outer),
{
    assert(inner.parts().take(inner.parts().len() as int) =~= inner.parts());
    if inner.within(middle) && middle.within(outer) {
        let n = outer.parts().len() as int;
        assert(inner.parts().take(n) =~= inner.parts().take(middle.parts().len() as int).take(n));
    }
}

/// The components that a relative path with `/` between them names: empty pieces and `.` name
/// none.
pub open spec fn components_of(path: Seq<char>) -> Seq<Seq<char>> {
    named_pieces(split_of(path, '/'))
}

pub open spec fn named_pieces(pieces: Seq<Seq<char>>) -> Seq<Seq<char>>
    decreases pieces.len(),
{
    if pieces.len() == 0 {
        seq![]
    } else if names_component(pieces.last()) {
        named_pieces(pieces.drop_last()).push(pieces.last())
    } else {
        named_pieces(pieces.drop_last())
    }
}

pub open spec fn names_component(piece: Seq<char>) -> bool {
    piece.len() > 0 && piece != seq!['.']
}

/// Every named piece is one of the pieces, so it is neither empty nor `.`.
pub proof fn lemma_named_pieces(pieces: Seq<Seq<char>>)
    ensures
        forall|k: int|
            0 <= k < named_pieces(pieces).len() ==> names_component(
                #[trigger] named_pieces(pieces)[k],
            ) && pieces.contains(named_pieces(pieces)[k]),
    decreases pieces.len(),
{
    if pieces.len() > 0 {
        let rest = pieces.drop_last();
        lemma_named_pieces(rest);
        assert forall|k: int| 0 <= k < named_pieces(pieces).len() implies names_component(
            #[trigger] named_pieces(pieces)[k],
        ) && pieces.contains(named_pieces(pieces)[k]) by {
            if k < named_pieces(rest).len() {
                let piece = named_pieces(rest)[k];
                assert(rest.contains(piece));
                let j = choose|j: int| 0 <= j < rest.len() && rest[j] == piece;
                assert(pieces[j] == piece);
            } else {
                assert(pieces[pieces.len() - 1] == pieces.last());
            }
        }
    }
}

pub fn components(path: &str) -> (r: Vec<String>)
    ensures
        texts(r@) == components_of(path@),
{
    let pieces = split(path, '/');
    let mut out: Vec<String> = Vec::new();
    let mut i: usize = 0;
    proof {
        reveal_strlit(".");
        assert("."@ =~= seq!['.']);
    }
    while i < pieces.len()
        invariant
            "."@ == seq!['.'],
            texts(pieces@) == split_of(path@, '/'),
            i <= pieces@.len(),
            texts(out@) == named_pieces(texts(pieces@).take(i as int)),
        decreases pieces@.len() - i,
    {
        let piece = pieces[i].as_str();
        let ghost before = out@;
        proof {
            let next = texts(pieces@).take(i + 1);
            assert(next.drop_last() =~= texts(pieces@).take(i as int));
            assert(next.last() == piece@);
        }
        if !piece.is_empty() && !str_eq(piece, ".") {
            out.push(piece.to_owned());
            assert(texts(out@) =~= texts(before).push(piece@));
        }
        i += 1;
    }
    assert(texts(pieces@).take(i as int) =~= texts(pieces@));
    out
}

/// Both relative paths name the same components.
pub fn same_components(a: &str, b: &str) -> (r: bool)
    ensures
        r == (components_of(a@) == components_of(b@)),
{
    let x = components(a);
    let y = components(b);
    same_texts(&x, &y)
}

/// A name below a directory.
pub open spec fn joined_of(base: Seq<char>, name: Seq<char>) -> Seq<char> {
    if base.len() == 0 || base.last() == '/' {
        base + name
    } else {
        base + "/"@ + name
    }
}

pub fn joined(base: &str, name: &str) -> (r: String)
    ensures
        r@ == joined_of(base@, name@),
{
    let chars = to_chars(base);
    let mut out = base.to_owned();
    if chars.len() > 0 && chars[chars.len() - 1] != '/' {
        out.append("/");
    }
    out.append(name);
    out
}

/// The name of the file that a path ends in.
pub open spec fn file_name_of(path: Seq<char>) -> Option<Seq<char>> {
    let names = components_of(path);
    if names.len() > 0 && names.last() != ".."@ {
        Some(names.last())
    } else {
        None
    }
}

pub fn file_name(path: &str) -> (r: Option<String>)
    ensures
        r is Some == file_name_of(path@) is Some,
        r is Some ==> Some(r->0@) == file_name_of(path@),
{
    let names = components(path);
    assert(texts(names@).len() == names@.len());
    if names.len() == 0 {
        return None;
    }
    let last = names[names.len() - 1].as_str();
    assert(texts(names@).last() == last@);
    if str_eq(last, "..") {
        None
    } else {
        Some(last.to_owned())
    }
}

/// The path from `root` to a path below it, with `/` between components.
pub open spec fn relative_of(root: Location, path: Location) -> Option<Seq<char>> {
    if path.within(root) {
        Some(
            swap_char_of(
                join_of(path.parts().skip(root.parts().len() as int), "/"@),
                '\\',
                '/',
            ),
        )
    } else {
        None
    }
}

pub fn relative_path(root: &Location, path: &Location) -> (r: Option<String>)
    ensures
        r is Some == relative_of(*root, *path) is Some,
        r is Some ==> Some(r->0@) == relative_of(*root, *path),
{
    if !path.is_within(root) {
        return None;
    }
    let from: usize = root.components.len();
    let mut below: Vec<String> = Vec::new();
    let mut i: usize = from;
    assert(texts(below@) =~= path.parts().subrange(from as int, from as int));
    while i < path.components.len()
        invariant
            from <= i <= path.components@.len(),
            texts(below@) == path.parts().subrange(from as int, i as int),
        decreases path.components@.len() - i,
    {
        let ghost before = below@;
        below.push(path.components[i].clone());
        proof {
            assert(texts(below@) =~= texts(before).push(path.components@[i as int]@));
            assert(path.parts().subrange(from as int, i + 1) =~= path.parts().subrange(
                from as int,
                i as int,
            ).push(path.components@[i as int]@));
        }
        i += 1;
    }
    assert(path.parts().subrange(from as int, i as int) =~= path.parts().skip(from as int));
    let joined_text = join(below.as_slice(), "/");
    Some(swap_char(joined_text.as_str(), '\\', '/'))
}

/// A path lies within another one if the way to the other is the start of the way to it.
pub proof fn lemma_within_is_below(path: Location, root: Location, r: bool)
    requires
        call_ensures(Location::is_within, (&path, &root), r),
    ensures
        r == root.parts().is_prefix_of(path.parts()),
{
    let n = root.parts().len() as int;
    if n <= path.parts().len() {
        assert(path.parts().take(n) =~= path.parts().subrange(0, n));
    }
}

proof fn lemma_named_pieces_of_both(a: Seq<Seq<char>>, b: Seq<Seq<char>>)
    ensures
        named_pieces(a + b) == named_pieces(a) + named_pieces(b),
    decreases b.len(),
{
    if b.len() == 0 {
        assert(a + b =~= a);
        assert(named_pieces(a) + named_pieces(b) =~= named_pieces(a));
    } else {
        assert((a + b).drop_last() =~= a + b.drop_last());
        assert((a + b).last() == b.last());
        lemma_named_pieces_of_both(a, b.drop_last());
        if names_component(b.last()) {
            assert(named_pieces(a) + named_pieces(b) =~= (named_pieces(a) + named_pieces(
                b.drop_last(),
            )).push(b.last()));
        }
    }
}

proof fn lemma_split_of_both(a: Seq<char>, b: Seq<char>, c: char)
    ensures
        split_of(a + seq![c] + b, c) == split_of(a, c) + split_of(b, c),
    decreases a.len(),
{
    let all = a + seq![c] + b;
    let k = cut(a, c) as int;
    lemma_cut(a, c);
    lemma_cut(all, c);
    let m = cut(all, c) as int;
    assert(all[a.len() as int] == c);
    if k >= a.len() {
        if m < a.len() {
            assert(a[m] == all[m]);
            assert(false);
        }
        assert(m == a.len());
        assert(all.take(m) =~= a);
        assert(all.skip(m + 1) =~= b);
    } else {
        assert(all[k] == a[k]);
        if m < k {
            assert(a[m] == all[m]);
            assert(false);
        }
        assert(m == k);
        assert(all.take(k) =~= a.take(k));
        assert(all.skip(k + 1) =~= a.skip(k + 1) + seq![c] + b);
        lemma_split_of_both(a.skip(k + 1), b, c);
        assert(split_of(a, c) + split_of(b, c) =~= seq![a.take(k)] + (split_of(a.skip(k + 1), c)
            + split_of(b, c)));
    }
}

/// A path that is written behind another one, with `/` between them, goes on from there.
pub proof fn lemma_components_go_on(a: Seq<char>, b: Seq<char>)
    ensures
        components_of(a + seq!['/'] + b) == components_of(a) + components_of(b),
{
    lemma_split_of_both(a, b, '/');
    lemma_named_pieces_of_both(split_of(a, '/'), split_of(b, '/'));
}

proof fn lemma_all_named(pieces: Seq<Seq<char>>)
    requires
        forall|k: int|
            0 <= k < pieces.len() ==> (#[trigger] pieces[k]).len() > 0 && pieces[k] != seq!['.'],
    ensures
        named_pieces(pieces) == pieces,
    decreases pieces.len(),
{
    if pieces.len() > 0 {
        assert(pieces[pieces.len() - 1] == pieces.last());
        lemma_all_named(pieces.drop_last());
        assert(pieces.drop_last().push(pieces.last()) =~= pieces);
    } else {
        assert(named_pieces(pieces) =~= pieces);
    }
}

/// The names of a path are read as they stand between its slashes, and nothing, or a single dot,
/// is no name.
pub proof fn lemma_names_are_read_as_they_stand(path: &str, r: Vec<String>, names: Seq<Seq<char>>)
    requires
        call_ensures(components, (path,), r),
    ensures
        names.len() > 0 && path@ == join_of(names, seq!['/']) && (forall|k: int|
            0 <= k < names.len() ==> (#[trigger] names[k]).len() > 0 && names[k] != seq!['.']
                && !names[k].contains('/')) ==> texts(r@) == names,
        path@.len() == 0 || path@ == seq!['.'] ==> r@.len() == 0,
        forall|k: int|
            0 <= k < r@.len() ==> (#[trigger] r@[k])@.len() > 0 && r@[k]@ != seq!['.']
                && !r@[k]@.contains('/'),
{
    if names.len() > 0 && path@ == join_of(names, seq!['/']) && (forall|k: int|
        0 <= k < names.len() ==> (#[trigger] names[k]).len() > 0 && names[k] != seq!['.']
            && !names[k].contains('/')) {
        lemma_split_of_joined(names, '/');
        lemma_all_named(names);
    }
    let pieces = split_of(path@, '/');
    lemma_cut(path@, '/');
    assert(texts(r@).len() == r@.len());
    if path@.len() == 0 || path@ == seq!['.'] {
        assert(pieces =~= seq![path@]);
        assert(pieces.drop_last() =~= Seq::<Seq<char>>::empty());
        assert(named_pieces(pieces.drop_last()).len() == 0);
    }
    lemma_split_cuts_at_separators(path@, '/');
    lemma_named_pieces(pieces);
    assert forall|k: int| 0 <= k < r@.len() implies (#[trigger] r@[k])@.len() > 0 && r@[k]@
        != seq!['.'] && !r@[k]@.contains('/') by {
        assert(texts(r@)[k] == r@[k]@);
        let piece = named_pieces(pieces)[k];
        assert(pieces.contains(piece));
        let j = choose|j: int| 0 <= j < pieces.len() && pieces[j] == piece;
        assert(!pieces[j].contains('/'));
    }
}

/// A name below a directory leads on from there, and is its file name.
pub proof fn lemma_joined_leads_on(base: &str, name: &str, r: String)
    requires
        call_ensures(joined, (base, name), r),
    ensures
        base@.is_prefix_of(r@),
        name@.is_suffix_of(r@),
        components_of(r@) == components_of(base@) + components_of(name@),
{
    reveal_strlit("/");
    assert("/"@ =~= seq!['/']);
    assert(base@ =~= r@.subrange(0, base@.len() as int));
    assert(name@ =~= r@.subrange(r@.len() - name@.len(), r@.len() as int));
    if base@.len() == 0 {
        let pieces = split_of(base@, '/');
        lemma_cut(base@, '/');
        assert(pieces =~= seq![base@]);
        assert(pieces.drop_last() =~= Seq::<Seq<char>>::empty());
        assert(named_pieces(pieces.drop_last()).len() == 0);
        assert(components_of(base@) =~= Seq::<Seq<char>>::empty());
        assert(r@ =~= name@);
        assert(components_of(base@) + components_of(name@) =~= components_of(name@));
    } else if base@.last() == '/' {
        let front = base@.drop_last();
        let nothing = Seq::<char>::empty();
        assert(base@ =~= front + seq!['/'] + nothing);
        lemma_components_go_on(front, nothing);
        let pieces = split_of(nothing, '/');
        lemma_cut(nothing, '/');
        assert(pieces =~= seq![nothing]);
        assert(pieces.drop_last() =~= Seq::<Seq<char>>::empty());
        assert(named_pieces(pieces.drop_last()).len() == 0);
        assert(components_of(base@) =~= components_of(front));
        assert(r@ =~= front + seq!['/'] + name@);
        lemma_components_go_on(front, name@);
    } else {
        lemma_components_go_on(base@, name@);
    }
}

/// The name of a file is the last name of its path.
pub proof fn lemma_file_names_are_last(path: &str, r: Option<String>, base: Seq<char>, name: Seq<char>)
    requires
        call_ensures(file_name, (path,), r),
        path@ == base + seq!['/'] + name,
        name.len() > 0,
        name != seq!['.'],
        name != seq!['.', '.'],
        !name.contains('/'),
    ensures
        r is Some,
        r->0@ == name,
{
    reveal_strlit("..");
    assert(".."@ =~= seq!['.', '.']);
    lemma_components_go_on(base, name);
    let pieces = split_of(name, '/');
    lemma_cut(name, '/');
    assert(cut(name, '/') >= name.len()) by {
        if cut(name, '/') < name.len() {
            assert(name.contains(name[cut(name, '/') as int]));
        }
    }
    assert(pieces =~= seq![name]);
    assert(pieces.drop_last() =~= Seq::<Seq<char>>::empty());
    assert(named_pieces(pieces.drop_last()) =~= Seq::<Seq<char>>::empty());
    assert(components_of(name) =~= seq![name]);
    assert(components_of(path@).last() == name);
}

/// A path that lies within a directory is reached from there by its relative path; no other path
/// has one.
pub proof fn lemma_relative_paths_lead_there(root: Location, path: Location, r: Option<String>)
    requires
        call_ensures(relative_path, (&root, &path), r),
        forall|k: int|
            0 <= k < path.parts().len() ==> (#[trigger] path.parts()[k]).len() > 0
                && path.parts()[k] != seq!['.'] && !path.parts()[k].contains('/')
                && !path.parts()[k].contains('\\'),
    ensures
        r is Some <==> root.parts().is_prefix_of(path.parts()),
        r is Some ==> root.parts() + components_of(r->0@) == path.parts(),
{
    let n = root.parts().len() as int;
    if n <= path.parts().len() {
        assert(path.parts().take(n) =~= path.parts().subrange(0, n));
    }
    if r is Some {
        reveal_strlit("/");
        assert("/"@ =~= seq!['/']);
        let names = path.parts().skip(n);
        assert forall|k: int| 0 <= k < names.len() implies (#[trigger] names[k]).len() > 0
            && names[k] != seq!['.'] && !names[k].contains('/') && !names[k].contains('\\') by {
            assert(names[k] == path.parts()[n + k]);
        }
        lemma_join_has_no(names, '/', '\\');
        let text = join_of(names, seq!['/']);
        assert(swap_char_of(text, '\\', '/') =~= text) by {
            assert forall|k: int| 0 <= k < text.len() implies text[k] != '\\' by {
                assert(text.contains(text[k]));
            }
        }
        if names.len() > 0 {
            lemma_split_of_joined(names, '/');
            lemma_all_named(names);
        } else {
            let pieces = split_of(text, '/');
            lemma_cut(text, '/');
            assert(pieces =~= seq![text]);
            assert(pieces.drop_last() =~= Seq::<Seq<char>>::empty());
            assert(named_pieces(pieces.drop_last()).len() == 0);
            assert(components_of(text) =~= names);
        }
        assert(root.parts() + names =~= path.parts()) by {
            assert forall|k: int| 0 <= k < n implies root.parts()[k] == path.parts()[k] by {
                assert(path.parts().subrange(0, n)[k] == path.parts()[k]);
            }
        }
    }
}

proof fn lemma_join_has_no(names: Seq<Seq<char>>, separator: char, c: char)
    requires
        separator != c,
        forall|k: int| 0 <= k < names.len() ==> !(#[trigger] names[k]).contains(c),
    ensures
        !join_of(names, seq![separator]).contains(c),
    decreases names.len(),
{
    let text = join_of(names, seq![separator]);
    if names.len() > 0 {
        let last = names.last();
        assert(!names[names.len() - 1].contains(c));
        if names.len() > 1 {
            let front = join_of(names.drop_last(), seq![separator]);
            lemma_join_has_no(names.drop_last(), separator, c);
            if text.contains(c) {
                let k = choose|k: int| 0 <= k < text.len() && text[k] == c;
                if k < front.len() {
                    assert(front[k] == c);
                } else if k > front.len() {
                    assert(last[k - front.len() - 1] == c);
                }
            }
        }
    }
}

} // verus!
