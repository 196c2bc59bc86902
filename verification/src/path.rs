//! The path containment guard: which resolved paths lie inside the root.
//!
//! The guard never looks at the filesystem. It is handed a path that has been
//! resolved already, as the bytes of an absolute path, and decides on those
//! alone. A path counts only in canonical form: a `/` before each name, and no
//! name that is empty, `.` or `..` or holds a NUL. Anything else is treated as
//! a path that could not be resolved.

use vstd::prelude::*;
use vstd::slice::slice_to_vec;

verus! {

/// The byte that parts the names of a path.
pub const SLASH: u8 = 47;

/// The byte of which `.` and `..` are made.
pub const DOT: u8 = 46;

/// The pieces of `text` between its slashes, in order. Text without a slash is
/// one piece, and text that ends in a slash has an empty last piece.
pub open spec fn pieces(text: Seq<u8>) -> Seq<Seq<u8>>
    decreases text.len(),
{
    if text.len() == 0 {
        seq![Seq::empty()]
    } else {
        let before = pieces(text.drop_last());
        if text.last() == SLASH {
            before.push(Seq::empty())
        } else {
            before.update(before.len() - 1, before.last().push(text.last()))
        }
    }
}

/// Whether a piece of a path names a file or a directory.
pub open spec fn is_name(piece: Seq<u8>) -> bool {
    &&& piece.len() > 0
    &&& piece != seq![DOT]
    &&& piece != seq![DOT, DOT]
    &&& forall|i: int| 0 <= i < piece.len() ==> #[trigger] piece[i] != 0
}

/// The names that a canonical absolute path is made of, from the filesystem
/// root down; `None` for text that is no such path. The filesystem root itself
/// has no names.
pub open spec fn names_of(text: Seq<u8>) -> Option<Seq<Seq<u8>>> {
    if text.len() == 0 || text[0] != SLASH {
        None
    } else if text.len() == 1 {
        Some(Seq::empty())
    } else {
        let names = pieces(text.skip(1));
        if forall|i: int| 0 <= i < names.len() ==> is_name(#[trigger] names[i]) {
            Some(names)
        } else {
            None
        }
    }
}

/// Whether `path` lies below `root`: the names of `root` come first in it, and
/// at least one more follows. The root is not inside itself.
pub open spec fn strictly_within(path: Seq<Seq<u8>>, root: Seq<Seq<u8>>) -> bool {
    &&& root.len() < path.len()
    &&& forall|i: int| 0 <= i < root.len() ==> #[trigger] path[i] == root[i]
}

/// Whether the resolved path `text` is a canonical path below the canonical
/// path `root`.
pub open spec fn contained(text: Seq<u8>, root: Seq<u8>) -> bool {
    match (names_of(text), names_of(root)) {
        (Some(path), Some(base)) => strictly_within(path, base),
        _ => false,
    }
}

/// The names held in a vector, each as a sequence of bytes.
pub open spec fn names_view(names: Seq<Vec<u8>>) -> Seq<Seq<u8>> {
    Seq::new(names.len(), |i: int| names[i]@)
}

/// A canonical absolute path.
#[derive(Debug, PartialEq, Eq)]
pub struct ResourcePath {
    text: Vec<u8>,
    names: Vec<Vec<u8>>,
}

impl View for ResourcePath {
    type V = Seq<u8>;

    closed spec fn view(&self) -> Seq<u8> {
        self.text@
    }
}

/// Whether two byte strings are the same.
fn same_bytes(a: &[u8], b: &[u8]) -> (same: bool)
    ensures
        same == (a@ == b@),
{
    if a.len() != b.len() {
        return false;
    }
    let mut i: usize = 0;
    while i < a.len()
        invariant
            a@.len() == b@.len(),
            i <= a@.len(),
            forall|j: int| 0 <= j < i ==> a@[j] == b@[j],
        decreases a@.len() - i,
    {
        if a[i] != b[i] {
            return false;
        }
        i = i + 1;
    }
    assert(a@ =~= b@);
    true
}

/// Whether a piece of a path names a file or a directory.
fn piece_is_name(piece: &[u8]) -> (ok: bool)
    ensures
        ok == is_name(piece@),
{
    let n = piece.len();
    if n == 0 {
        return false;
    }
    if n == 1 && piece[0] == DOT {
        assert(piece@ =~= seq![DOT]);
        return false;
    }
    if n == 2 && piece[0] == DOT && piece[1] == DOT {
        assert(piece@ =~= seq![DOT, DOT]);
        return false;
    }
    assert(seq![DOT][0] == DOT && seq![DOT, DOT][0] == DOT && seq![DOT, DOT][1] == DOT);
    let mut i: usize = 0;
    while i < n
        invariant
            n == piece@.len(),
            i <= n,
            forall|j: int| 0 <= j < i ==> #[trigger] piece@[j] != 0,
        decreases n - i,
    {
        if piece[i] == 0 {
            return false;
        }
        i = i + 1;
    }
    true
}

/// Cuts `text` at its slashes.
fn split(text: &[u8]) -> (parts: Vec<Vec<u8>>)
    ensures
        names_view(parts@) == pieces(text@),
{
    let mut done: Vec<Vec<u8>> = Vec::new();
    let mut current: Vec<u8> = Vec::new();
    let mut i: usize = 0;
    assert(text@.subrange(0, 0) =~= Seq::empty());
    assert(names_view(done@).push(current@) =~= seq![Seq::empty()]);
    while i < text.len()
        invariant
            i <= text@.len(),
            names_view(done@).push(current@) == pieces(text@.subrange(0, i as int)),
        decreases text@.len() - i,
    {
        let ghost before = names_view(done@).push(current@);
        let ghost upto = text@.subrange(0, i + 1);
        assert(upto.drop_last() =~= text@.subrange(0, i as int));
        assert(upto.last() == text@[i as int]);
        let b = text[i];
        if b == SLASH {
            done.push(current);
            current = Vec::new();
            assert(names_view(done@).push(current@) =~= before.push(Seq::empty()));
        } else {
            current.push(b);
            assert(names_view(done@).push(current@) =~= before.update(
                before.len() - 1,
                before.last().push(b),
            ));
        }
        i = i + 1;
    }
    assert(text@.subrange(0, i as int) =~= text@);
    let ghost all = names_view(done@).push(current@);
    done.push(current);
    assert(names_view(done@) =~= all);
    done
}

impl ResourcePath {
    #[verifier::type_invariant]
    spec fn well_formed(self) -> bool {
        names_of(self.text@) == Some(names_view(self.names@))
    }

    /// Reads the bytes of a resolved path. Gives the path where the bytes are a
    /// canonical absolute path, and nothing otherwise.
    pub fn parse(text: &[u8]) -> (parsed: Option<ResourcePath>)
        ensures
            parsed is Some <==> names_of(text@) is Some,
            parsed matches Some(path) ==> path@ == text@,
    {
        if text.len() == 0 || text[0] != SLASH {
            return None;
        }
        if text.len() == 1 {
            let names: Vec<Vec<u8>> = Vec::new();
            assert(names_view(names@) =~= Seq::empty());
            return Some(ResourcePath { text: slice_to_vec(text), names });
        }
        let rest = vstd::slice::slice_subrange(text, 1, text.len());
        assert(rest@ =~= text@.skip(1));
        let names = split(rest);
        let mut i: usize = 0;
        while i < names.len()
            invariant
                i <= names@.len(),
                text@.len() > 1,
                text@[0] == SLASH,
                names_view(names@) == pieces(text@.skip(1)),
                forall|j: int| 0 <= j < i ==> is_name(#[trigger] names_view(names@)[j]),
            decreases names@.len() - i,
        {
            if !piece_is_name(names[i].as_slice()) {
                assert(!is_name(names_view(names@)[i as int]));
                return None;
            }
            i = i + 1;
        }
        Some(ResourcePath { text: slice_to_vec(text), names })
    }

    /// The bytes of the path, as they were parsed.
    pub fn as_bytes(&self) -> (text: &[u8])
        ensures
            text@ == self@,
            names_of(self@) is Some,
    {
        proof {
            use_type_invariant(self);
        }
        self.text.as_slice()
    }

    /// Whether this path lies below `root`.
    pub fn is_within(&self, root: &ResourcePath) -> (within: bool)
        ensures
            within == contained(self@, root@),
    {
        proof {
            use_type_invariant(self);
            use_type_invariant(root);
        }
        if root.names.len() >= self.names.len() {
            return false;
        }
        let mut i: usize = 0;
        while i < root.names.len()
            invariant
                i <= root.names@.len(),
                root.names@.len() < self.names@.len(),
                names_of(self@) == Some(names_view(self.names@)),
                names_of(root@) == Some(names_view(root.names@)),
                forall|j: int|
                    0 <= j < i ==> #[trigger] names_view(self.names@)[j] == names_view(
                        root.names@,
                    )[j],
            decreases root.names@.len() - i,
        {
            if !same_bytes(self.names[i].as_slice(), root.names[i].as_slice()) {
                assert(names_view(self.names@)[i as int] != names_view(root.names@)[i as int]);
                return false;
            }
            i = i + 1;
        }
        true
    }
}

/// Admits a resolved path if it lies below the root.
///
/// `resolved` holds the bytes of the canonical form of the requested path, or
/// nothing where the path could not be resolved. The path comes back exactly
/// where it is a canonical absolute path below `root`. Every other case gives
/// the same `None`: a caller cannot tell a path that escapes the root from one
/// that does not exist.
pub fn safe_path(resolved: Option<&[u8]>, root: &ResourcePath) -> (admitted: Option<ResourcePath>)
    ensures
        admitted is Some <==> (resolved matches Some(text) && contained(text@, root@)),
        admitted matches Some(path) ==> resolved matches Some(text) && path@ == text@,
{
    let path = ResourcePath::parse(resolved?)?;
    if path.is_within(root) {
        Some(path)
    } else {
        None
    }
}

/// Pieces put together again, with one slash between each two.
pub open spec fn joined(parts: Seq<Seq<u8>>) -> Seq<u8>
    decreases parts.len(),
{
    if parts.len() == 0 {
        Seq::empty()
    } else if parts.len() == 1 {
        parts[0]
    } else {
        joined(parts.drop_last()) + seq![SLASH] + parts.last()
    }
}

/// Cutting text at its slashes loses nothing and leaves no slash behind: there
/// is at least one piece, no piece holds a slash, and the pieces joined by
/// slashes are the text.
pub proof fn lemma_pieces_rejoin(text: Seq<u8>)
    ensures
        pieces(text).len() >= 1,
        joined(pieces(text)) == text,
        forall|i: int, j: int|
            0 <= i < pieces(text).len() && 0 <= j < pieces(text)[i].len() ==> pieces(
                text,
            )[i][j] != SLASH,
    decreases text.len(),
{
    if text.len() == 0 {
        assert(joined(pieces(text)) =~= text);
    } else {
        let before = pieces(text.drop_last());
        lemma_pieces_rejoin(text.drop_last());
        if text.last() == SLASH {
            let all = before.push(Seq::empty());
            assert(all.drop_last() =~= before);
            assert(joined(all) =~= text);
        } else {
            let grown = before.last().push(text.last());
            let all = before.update(before.len() - 1, grown);
            if before.len() == 1 {
                assert(joined(before) == before[0]);
                assert(joined(all) == grown);
                assert(grown =~= text);
            } else {
                let front = joined(before.drop_last()) + seq![SLASH];
                assert(all.drop_last() =~= before.drop_last());
                assert(joined(before) == front + before.last());
                assert(joined(all) == front + grown);
                assert(front + grown =~= (front + before.last()).push(text.last()));
                assert(text.drop_last().push(text.last()) =~= text);
            }
        }
    }
}

/// Text with a slash in it is cut there among other places: the pieces of
/// `head`, a slash and `tail` are the pieces of `head`, then those of `tail`.
pub proof fn lemma_pieces_of_joint(head: Seq<u8>, tail: Seq<u8>)
    ensures
        pieces(head + seq![SLASH] + tail) == pieces(head) + pieces(tail),
    decreases tail.len(),
{
    let whole = head + seq![SLASH] + tail;
    lemma_pieces_rejoin(head);
    if tail.len() == 0 {
        assert(whole.drop_last() =~= head);
        assert(pieces(whole) =~= pieces(head) + pieces(tail));
    } else {
        lemma_pieces_of_joint(head, tail.drop_last());
        lemma_pieces_rejoin(tail.drop_last());
        assert(whole.drop_last() =~= head + seq![SLASH] + tail.drop_last());
        assert(whole.last() == tail.last());
        assert(pieces(whole) =~= pieces(head) + pieces(tail));
    }
}

/// Text without a slash is one piece.
pub proof fn lemma_piece_alone(text: Seq<u8>)
    requires
        forall|i: int| 0 <= i < text.len() ==> text[i] != SLASH,
    ensures
        pieces(text) == seq![text],
    decreases text.len(),
{
    if text.len() == 0 {
        assert(text =~= Seq::empty());
    } else {
        lemma_piece_alone(text.drop_last());
        assert(text.drop_last().push(text.last()) =~= text);
        assert(pieces(text) =~= seq![text]);
    }
}

/// Joining is undone by cutting: pieces that hold no slash, joined by slashes
/// and cut at the slashes again, are the same pieces. With
/// [`lemma_pieces_rejoin`] this makes text and its pieces two forms of one
/// thing.
pub proof fn lemma_joined_pieces(parts: Seq<Seq<u8>>)
    requires
        parts.len() >= 1,
        forall|i: int, j: int| 0 <= i < parts.len() && 0 <= j < parts[i].len() ==> parts[i][j]
            != SLASH,
    ensures
        pieces(joined(parts)) == parts,
    decreases parts.len(),
{
    if parts.len() == 1 {
        lemma_piece_alone(parts[0]);
        assert(seq![parts[0]] =~= parts);
    } else {
        let front = parts.drop_last();
        lemma_joined_pieces(front);
        lemma_pieces_of_joint(joined(front), parts.last());
        lemma_piece_alone(parts.last());
        assert(front + seq![parts.last()] =~= parts);
    }
}

/// Joined pieces fall into what comes before any slash between two pieces and
/// what comes after it.
pub proof fn lemma_joined_splits(parts: Seq<Seq<u8>>, at: int)
    requires
        0 < at < parts.len(),
    ensures
        joined(parts) == joined(parts.take(at)) + seq![SLASH] + joined(parts.skip(at)),
    decreases parts.len(),
{
    if at == parts.len() - 1 {
        assert(parts.take(at) =~= parts.drop_last());
        assert(parts.skip(at) =~= seq![parts.last()]);
        assert(joined(parts.skip(at)) == parts.last());
    } else {
        let front = parts.drop_last();
        lemma_joined_splits(front, at);
        assert(front.take(at) =~= parts.take(at));
        assert(front.skip(at) =~= parts.skip(at).drop_last());
        assert(parts.skip(at).last() == parts.last());
        assert(joined(parts) =~= joined(parts.take(at)) + seq![SLASH] + joined(parts.skip(at)));
    }
}

/// Whether `text` starts with `root` and goes on below it: it is longer, its
/// first bytes are those of `root`, and a slash follows them, unless `root` is
/// the slash alone.
pub open spec fn extends(text: Seq<u8>, root: Seq<u8>) -> bool {
    &&& root.len() < text.len()
    &&& text.subrange(0, root.len() as int) == root
    &&& (root.len() == 1 || text[root.len() as int] == SLASH)
}

/// Containment, read off the bytes.
///
/// For two canonical paths, the one lies below the other exactly where its
/// text is longer, starts with the text of the other and goes on with a
/// slash; below the filesystem root, whose text is the slash alone, lies every
/// other path. So a path is admitted only where the root is a strict prefix of
/// it that ends at a name, and `/srv/vault2` is not below `/srv/vault`.
pub proof fn lemma_contained_is_strict_prefix(text: Seq<u8>, root: Seq<u8>)
    requires
        names_of(text) is Some,
        names_of(root) is Some,
    ensures
        contained(text, root) <==> extends(text, root),
{
    let path = names_of(text)->0;
    let base = names_of(root)->0;
    if root.len() == 1 {
        if text.len() > 1 {
            lemma_pieces_rejoin(text.skip(1));
            assert(text.subrange(0, 1) =~= root);
        }
    } else if text.len() == 1 {
    } else {
        let below = text.skip(1);
        let above = root.skip(1);
        lemma_pieces_rejoin(below);
        lemma_pieces_rejoin(above);
        if contained(text, root) {
            let at = base.len() as int;
            lemma_joined_splits(path, at);
            assert(path.take(at) =~= base);
            let rest = joined(path.skip(at));
            assert(below == above + seq![SLASH] + rest);
            assert(text.subrange(0, root.len() as int) =~= root) by {
                assert forall|i: int| 0 <= i < root.len() implies text[i] == root[i] by {
                    if i > 0 {
                        assert(text[i] == below[i - 1]);
                        assert(root[i] == above[i - 1]);
                    }
                }
            }
            assert(text[root.len() as int] == below[above.len() as int]);
        }
        if extends(text, root) {
            let rest = text.subrange(root.len() as int + 1, text.len() as int);
            assert(below =~= above + seq![SLASH] + rest) by {
                assert forall|i: int| 0 <= i < below.len() implies below[i] == (above + seq![
                    SLASH,
                ] + rest)[i] by {
                    if i < above.len() {
                        assert(text.subrange(0, root.len() as int)[i + 1] == root[i + 1]);
                    }
                }
            }
            lemma_pieces_of_joint(above, rest);
            lemma_pieces_rejoin(rest);
            assert(path == base + pieces(rest));
            assert(strictly_within(path, base));
        }
    }
}

} // verus!
