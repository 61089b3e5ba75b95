//! The patch document of a commit: one block per rendered path change, in the order given.
use crate::patch::PathChange;
use crate::patch::{git_line, mode_lines, octal6};
use crate::text::{lit, nl, push_bytes, push_nl};
use gix::diff::blob::{sources::byte_lines, unified_diff, Diff, InternedInput, UnifiedDiff};
use vstd::prelude::*;

verus! {

/// The line-matching strategy used for content diffs.
#[derive(Clone, Copy, Debug, PartialEq, Eq)]
pub enum Algorithm {
    Histogram,
    Myers,
    MyersMinimal,
}

/// The content of one side of a change, as the object store classified it.
pub enum BlobText {
    Text(Vec<u8>),
    Binary,
}

/// The old and new content that belong to one path change.
pub struct BlobPair {
    pub old: BlobText,
    pub new: BlobText,
}

/// Why a patch document could not be rendered.
#[derive(Clone, Copy, Debug, PartialEq, Eq)]
pub enum DiffError {
    /// The line diff of a file is not valid UTF-8 text.
    NotUtf8,
    /// A rename or copy changed both the content and the file mode.
    RewriteModeChanged,
}

/// The number of unchanged lines shown on each side of a hunk.
pub const CONTEXT_LINES: u32 = 3;

/// The unified-diff hunks of two texts split into lines (line ends kept), with `context`
/// lines of context, or `None` where the hunk text is not valid UTF-8.
pub uninterp spec fn unified_hunks_of(alg: Algorithm, context: u32, old: Seq<u8>, new: Seq<u8>) -> Option<
    Seq<char>,
>;

/// A text without its leading and trailing whitespace.
pub uninterp spec fn trimmed_of(s: Seq<char>) -> Seq<char>;

/// Relies on gix's blob diff (`Diff::compute`, rendered by `UnifiedDiff` into a `String`
/// through `ConsumeBinaryHunk` with `\n` line ends): the hunks depend on the algorithm, the
/// context size and the two texts alone; rendering fails only on text that is not UTF-8.
/// The context is kept small: gix adds and doubles it in `u32` arithmetic.
#[verifier::external_body]
fn unified_hunks(alg: Algorithm, context: u32, old: &[u8], new: &[u8]) -> (r: Option<String>)
    requires
        context <= CONTEXT_LINES,
    ensures
        r matches Some(t) ==> unified_hunks_of(alg, context, old@, new@) == Some(t@),
        r is None ==> unified_hunks_of(alg, context, old@, new@) is None,
{
    let algorithm = match alg {
        Algorithm::Histogram => gix::diff::blob::Algorithm::Histogram,
        Algorithm::Myers => gix::diff::blob::Algorithm::Myers,
        Algorithm::MyersMinimal => gix::diff::blob::Algorithm::MyersMinimal,
    };
    let input = InternedInput::new(byte_lines(old), byte_lines(new));
    let diff = Diff::compute(algorithm, &input);
    let sink = unified_diff::ConsumeBinaryHunk::new(String::new(), "\n");
    let size = unified_diff::ContextSize::symmetrical(context);
    UnifiedDiff::new(&diff, &input, sink, size).consume().ok()
}

/// Relies on `str::trim`: the text without leading and trailing whitespace.
#[verifier::external_body]
fn trim_text(s: &str) -> (r: &str)
    ensures
        r@ == trimmed_of(s@),
{
    s.trim()
}

/// The hunk part of a block: the trimmed hunks and a line end.
pub open spec fn hunk_part(alg: Algorithm, old: Seq<u8>, new: Seq<u8>) -> Option<Seq<u8>> {
    match unified_hunks_of(alg, CONTEXT_LINES, old, new) {
        Some(t) => Some(vstd::utf8::encode_utf8(trimmed_of(t)) + nl()),
        None => None,
    }
}

/// The bytes of a text side; `None` for binary content.
pub open spec fn text_of(b: BlobText) -> Option<Seq<u8>> {
    match b {
        BlobText::Text(v) => Some(v@),
        BlobText::Binary => None,
    }
}

/// The old content of a change: nothing for an added file.
pub open spec fn old_side(c: PathChange, b: BlobPair) -> Option<Seq<u8>> {
    match c {
        PathChange::Addition { .. } => Some(Seq::empty()),
        _ => text_of(b.old),
    }
}

/// The new content of a change: nothing for a deleted file.
pub open spec fn new_side(c: PathChange, b: BlobPair) -> Option<Seq<u8>> {
    match c {
        PathChange::Deletion { .. } => Some(Seq::empty()),
        _ => text_of(b.new),
    }
}

/// The rendered block of one change. Changes of anything but regular files render as
/// nothing; a pure rename or copy as its header alone; a change with binary content as its
/// header alone; any other as its header followed by its hunks.
pub open spec fn block(c: PathChange, b: BlobPair, alg: Algorithm) -> Result<Seq<u8>, DiffError> {
    if !c.diffable() {
        Ok(Seq::empty())
    } else if c.pure_rewrite() {
        Ok(c.header())
    } else if c.rewrite_mode_changed() {
        Err(DiffError::RewriteModeChanged)
    } else {
        match (old_side(c, b), new_side(c, b)) {
            (Some(o), Some(n)) => match hunk_part(alg, o, n) {
                Some(h) => Ok(c.header() + h),
                None => Err(DiffError::NotUtf8),
            },
            _ => Ok(c.header()),
        }
    }
}

/// The blocks of all changes, concatenated in order; the first error stops it.
pub open spec fn document(cs: Seq<PathChange>, bs: Seq<BlobPair>, alg: Algorithm) -> Result<
    Seq<u8>,
    DiffError,
>
    decreases cs.len(),
{
    if cs.len() == 0 {
        Ok(Seq::empty())
    } else {
        match document(cs.drop_last(), bs.take(cs.len() - 1), alg) {
            Err(e) => Err(e),
            Ok(d) => match block(cs.last(), bs[cs.len() - 1], alg) {
                Err(e) => Err(e),
                Ok(x) => Ok(d + x),
            },
        }
    }
}

fn side_text<'a>(b: &'a BlobText) -> (r: Option<&'a [u8]>)
    ensures
        r matches Some(s) ==> text_of(*b) == Some(s@),
        r is None ==> text_of(*b) is None,
{
    match b {
        BlobText::Text(v) => Some(v.as_slice()),
        BlobText::Binary => None,
    }
}

/// Appends the block of one change to `out`.
pub fn write_block(out: &mut Vec<u8>, c: &PathChange, b: &BlobPair, alg: Algorithm) -> (r: Result<
    (),
    DiffError,
>)
    requires
        c.wf(),
    ensures
        match block(*c, *b, alg) {
            Ok(x) => r is Ok && final(out)@ == old(out)@ + x,
            Err(e) => r == Err::<(), DiffError>(e),
        },
{
    if !c.is_diffable() {
        assert(out@ =~= old(out)@ + Seq::<u8>::empty());
        return Ok(());
    }
    if c.is_pure_rewrite() {
        c.write_header(out);
        return Ok(());
    }
    if let PathChange::Rewrite { source_mode, mode, .. } = c {
        if *source_mode != *mode {
            return Err(DiffError::RewriteModeChanged);
        }
    }
    let empty: Vec<u8> = Vec::new();
    let old_text: Option<&[u8]> = match c {
        PathChange::Addition { .. } => Some(empty.as_slice()),
        _ => side_text(&b.old),
    };
    let new_text: Option<&[u8]> = match c {
        PathChange::Deletion { .. } => Some(empty.as_slice()),
        _ => side_text(&b.new),
    };
    match (old_text, new_text) {
        (Some(o), Some(n)) => {
            match unified_hunks(alg, CONTEXT_LINES, o, n) {
                Some(t) => {
                    c.write_header(out);
                    let trimmed = trim_text(t.as_str());
                    push_bytes(out, trimmed.as_bytes());
                    push_nl(out);
                    assert(final(out)@ =~= old(out)@ + (c.header() + hunk_part(alg, o@, n@).unwrap()));
                    Ok(())
                },
                None => Err(DiffError::NotUtf8),
            }
        },
        _ => {
            c.write_header(out);
            Ok(())
        },
    }
}

/// Renders the patch document of a commit: the block of each change in order, or `None`
/// where no change renders anything. `blobs[i]` holds the content of `changes[i]`.
pub fn render_diff(changes: &Vec<PathChange>, blobs: &Vec<BlobPair>, alg: Algorithm) -> (r: Result<
    Option<Vec<u8>>,
    DiffError,
>)
    requires
        changes@.len() == blobs@.len(),
        forall|i: int| 0 <= i < changes@.len() ==> (#[trigger] changes@[i]).wf(),
    ensures
        match document(changes@, blobs@, alg) {
            Err(e) => r == Err::<Option<Vec<u8>>, DiffError>(e),
            Ok(d) => r is Ok && (d.len() == 0 ==> r.unwrap() is None) && (d.len() > 0
                ==> r.unwrap() is Some && r.unwrap().unwrap()@ == d),
        },
{
    let mut out: Vec<u8> = Vec::new();
    let mut i: usize = 0;
    while i < changes.len()
        invariant
            i <= changes@.len() == blobs@.len(),
            forall|j: int| 0 <= j < changes@.len() ==> (#[trigger] changes@[j]).wf(),
            document(changes@.take(i as int), blobs@.take(i as int), alg) == Ok::<
                Seq<u8>,
                DiffError,
            >(out@),
        decreases changes@.len() - i,
    {
        proof {
            let cs = changes@.take(i + 1);
            assert(cs.drop_last() =~= changes@.take(i as int));
            assert(blobs@.take(i + 1).take(i as int) =~= blobs@.take(i as int));
            assert(cs.last() == changes@[i as int]);
        }
        match write_block(&mut out, &changes[i], &blobs[i], alg) {
            Ok(()) => {},
            Err(e) => {
                proof {
                    lemma_document_error_stays(changes@, blobs@, alg, i as int + 1);
                }
                return Err(e);
            },
        }
        i = i + 1;
    }
    assert(changes@.take(i as int) =~= changes@);
    assert(blobs@.take(i as int) =~= blobs@);
    if out.len() == 0 {
        Ok(None)
    } else {
        Ok(Some(out))
    }
}

proof fn lemma_document_error_stays(cs: Seq<PathChange>, bs: Seq<BlobPair>, alg: Algorithm, k: int)
    requires
        0 < k <= cs.len() == bs.len(),
        document(cs.take(k), bs.take(k), alg) is Err,
    ensures
        document(cs, bs, alg) == document(cs.take(k), bs.take(k), alg),
    decreases cs.len() - k,
{
    if k < cs.len() {
        let c1 = cs.take(k + 1);
        assert(c1.drop_last() =~= cs.take(k));
        assert(bs.take(k + 1).take(k) =~= bs.take(k));
        lemma_document_error_stays(cs, bs, alg, k + 1);
    } else {
        assert(cs.take(k) =~= cs);
        assert(bs.take(k) =~= bs);
    }
}

/// A rename or copy with unchanged content renders as its header alone: no hunk follows,
/// and the header carries a `similarity index 100%` line. One whose content changed (and
/// whose mode did not) renders its header followed by the hunks of its two texts.
pub proof fn lemma_rename_rendering(c: PathChange, b: BlobPair, alg: Algorithm)
    requires
        c is Rewrite,
        c.diffable(),
    ensures
        c.pure_rewrite() ==> block(c, b, alg) == Ok::<Seq<u8>, DiffError>(c.header()),
        c.pure_rewrite() ==> exists|pre: Seq<u8>, post: Seq<u8>|
            c.header() == pre + lit("similarity index 100%") + nl() + post,
        !c.pure_rewrite() && !c.rewrite_mode_changed() ==> match (text_of(b.old), text_of(b.new)) {
            (Some(o), Some(n)) => match hunk_part(alg, o, n) {
                Some(h) => block(c, b, alg) == Ok::<Seq<u8>, DiffError>(c.header() + h),
                None => block(c, b, alg) == Err::<Seq<u8>, DiffError>(DiffError::NotUtf8),
            },
            _ => block(c, b, alg) == Ok::<Seq<u8>, DiffError>(c.header()),
        },
{
    if let PathChange::Rewrite { source_location, location, source_mode, mode, source_id, id } = c {
        if c.pure_rewrite() {
            let pre = git_line(source_location@, location@) + mode_lines(source_mode, mode);
            let post = lit("rename from ") + source_location@ + nl() + lit("rename to ")
                + location@ + nl();
            assert(c.header() =~= pre + lit("similarity index 100%") + nl() + post);
        }
    }
}

/// Where no change is of regular files (in particular where there are no changes at all),
/// the document is empty, and `render_diff` reports that there is nothing to show.
pub proof fn lemma_nothing_to_render(cs: Seq<PathChange>, bs: Seq<BlobPair>, alg: Algorithm)
    requires
        cs.len() == bs.len(),
        forall|i: int| 0 <= i < cs.len() ==> !(#[trigger] cs[i]).diffable(),
    ensures
        document(cs, bs, alg) == Ok::<Seq<u8>, DiffError>(Seq::empty()),
    decreases cs.len(),
{
    if cs.len() > 0 {
        let c0 = cs.drop_last();
        assert forall|i: int| 0 <= i < c0.len() implies !(#[trigger] c0[i]).diffable() by {
            assert(c0[i] == cs[i]);
        }
        lemma_nothing_to_render(c0, bs.take(cs.len() - 1), alg);
        assert(!cs.last().diffable());
        assert(Seq::<u8>::empty() + Seq::<u8>::empty() =~= Seq::<u8>::empty());
    }
}

/// The line that opens the header of a change after its `diff --git` line, by kind: new
/// files, deleted files, content changes, and renames with unchanged content.
pub open spec fn kind_line(c: PathChange) -> Seq<u8> {
    match c {
        PathChange::Addition { .. } => lit("new file mode "),
        PathChange::Deletion { .. } => lit("deleted file mode "),
        PathChange::Modification { .. } => lit("index "),
        PathChange::Rewrite { source_id, id, source_mode, mode, .. } => if source_id.view()
            == id.view() {
            if source_mode != mode {
                lit("old mode ")
            } else {
                lit("similarity index 100%")
            }
        } else {
            lit("index ")
        },
    }
}

/// The two paths of a change: where it was and where it is.
pub open spec fn paths(c: PathChange) -> (Seq<u8>, Seq<u8>) {
    match c {
        PathChange::Addition { location, .. } => (location@, location@),
        PathChange::Deletion { location, .. } => (location@, location@),
        PathChange::Modification { location, .. } => (location@, location@),
        PathChange::Rewrite { source_location, location, .. } => (source_location@, location@),
    }
}

proof fn lemma_prefix(a: Seq<u8>, rest: Seq<u8>)
    ensures
        (a + rest).take(a.len() as int) == a,
{
    assert((a + rest).take(a.len() as int) =~= a);
}

proof fn lemma_header_opens(c: PathChange)
    ensures
        c.header().len() >= git_line(paths(c).0, paths(c).1).len() + kind_line(c).len(),
        c.header().take((git_line(paths(c).0, paths(c).1).len() + kind_line(c).len()) as int)
            == git_line(paths(c).0, paths(c).1) + kind_line(c),
{
    let g = git_line(paths(c).0, paths(c).1);
    let k = kind_line(c);
    match c {
        PathChange::Rewrite { source_location, location, source_mode, mode, source_id, id } => {
            if source_id.view() == id.view() {
                let tail = nl() + lit("rename from ") + source_location@ + nl() + lit("rename to ")
                    + location@ + nl();
                if source_mode != mode {
                    let t = (octal6(source_mode) + nl() + lit("new mode ") + octal6(mode) + nl());
                    let rest = t + (lit("similarity index 100%") + tail);
                    assert(c.header() =~= (g + k) + rest);
                    lemma_prefix(g + k, rest);
                } else {
                    assert(mode_lines(source_mode, mode) =~= Seq::empty());
                    assert(c.header() =~= (g + k) + tail);
                    lemma_prefix(g + k, tail);
                }
            } else {
                lemma_prefix(g + k, c.header().subrange((g + k).len() as int, c.header().len() as int));
            }
        },
        _ => {
            lemma_prefix(g + k, c.header().subrange((g + k).len() as int, c.header().len() as int));
        },
    }
}

/// Each rendered change opens its block with a `diff --git` line that names its two paths,
/// followed directly by the line that tells its kind.
pub proof fn lemma_block_opens_with_paths_and_kind(c: PathChange, b: BlobPair, alg: Algorithm)
    requires
        c.diffable(),
        block(c, b, alg) is Ok,
    ensures
        block(c, b, alg).unwrap().len() >= git_line(paths(c).0, paths(c).1).len() + kind_line(c).len(),
        block(c, b, alg).unwrap().take((git_line(paths(c).0, paths(c).1).len() + kind_line(c).len()) as int)
            == git_line(paths(c).0, paths(c).1) + kind_line(c),
{
    let g = git_line(paths(c).0, paths(c).1);
    let k = kind_line(c);
    let n = (g + k).len() as int;
    let x = block(c, b, alg).unwrap();
    lemma_header_opens(c);
    if x != c.header() {
        let h = choose|h: Seq<u8>| x == c.header() + h;
        assert(x.take(n) =~= c.header().take(n));
    }
}

/// The first byte of the kind line of a change: `n` for a new file, `d` for a deleted file,
/// `i` for a change of content (also under a new name), and `o` or `s` for a rename or copy
/// with unchanged content.
pub open spec fn kind_letter(c: PathChange) -> u8 {
    match c {
        PathChange::Addition { .. } => 110u8,
        PathChange::Deletion { .. } => 100u8,
        PathChange::Modification { .. } => 105u8,
        PathChange::Rewrite { source_id, id, source_mode, mode, .. } => if source_id.view()
            == id.view() {
            if source_mode != mode {
                111u8
            } else {
                115u8
            }
        } else {
            105u8
        },
    }
}

proof fn lemma_first_byte(s: &str, b: u8)
    requires
        s@.len() > 0,
        vstd::string::is_ascii(s),
        s@[0] as u8 == b,
    ensures
        lit(s).len() > 0,
        lit(s)[0] == b,
{
    vstd::string::is_ascii_spec_bytes(s);
}

/// The kind line right after the `diff --git` line tells apart new files, deleted files,
/// content changes and renames with unchanged content by its first byte.
pub proof fn lemma_kind_letter(c: PathChange)
    ensures
        kind_line(c).len() > 0,
        kind_line(c)[0] == kind_letter(c),
{
    reveal_strlit("new file mode ");
    reveal_strlit("deleted file mode ");
    reveal_strlit("index ");
    reveal_strlit("old mode ");
    reveal_strlit("similarity index 100%");
    match c {
        PathChange::Addition { .. } => lemma_first_byte("new file mode ", 110u8),
        PathChange::Deletion { .. } => lemma_first_byte("deleted file mode ", 100u8),
        PathChange::Modification { .. } => lemma_first_byte("index ", 105u8),
        PathChange::Rewrite { source_id, id, source_mode, mode, .. } => {
            if source_id.view() == id.view() {
                if source_mode != mode {
                    lemma_first_byte("old mode ", 111u8);
                } else {
                    lemma_first_byte("similarity index 100%", 115u8);
                }
            } else {
                lemma_first_byte("index ", 105u8);
            }
        },
    }
}

/// Blocks joined in order.
pub open spec fn join(parts: Seq<Seq<u8>>) -> Seq<u8>
    decreases parts.len(),
{
    if parts.len() == 0 {
        Seq::empty()
    } else {
        join(parts.drop_last()) + parts.last()
    }
}

/// The opening of a rendered block: the `diff --git` line with the change's two paths, then
/// the start of the line that tells its kind.
pub open spec fn opening(c: PathChange) -> Seq<u8> {
    git_line(paths(c).0, paths(c).1) + kind_line(c)
}

/// A rendered document is the blocks of its changes joined in change order. The block of a
/// change of anything but regular files is empty; every other block opens with the
/// `diff --git` line naming that change's two paths, directly followed by the line that tells
/// its kind (whose first byte is `kind_letter`). Reading the blocks' openings in order thus
/// gives back the paths of the rendered changes in order, each with its kind.
pub proof fn lemma_document_blocks(cs: Seq<PathChange>, bs: Seq<BlobPair>, alg: Algorithm) -> (parts: Seq<
    Seq<u8>,
>)
    requires
        cs.len() == bs.len(),
        document(cs, bs, alg) is Ok,
    ensures
        parts.len() == cs.len(),
        join(parts) == document(cs, bs, alg).unwrap(),
        forall|i: int| 0 <= i < cs.len() && !cs[i].diffable() ==> (#[trigger] parts[i]).len() == 0,
        forall|i: int|
            0 <= i < cs.len() && cs[i].diffable() ==> (#[trigger] parts[i]).len() >= opening(
                cs[i],
            ).len() && parts[i].take(opening(cs[i]).len() as int) == opening(cs[i]) && kind_line(
                cs[i],
            )[0] == kind_letter(cs[i]),
    decreases cs.len(),
{
    if cs.len() == 0 {
        Seq::empty()
    } else {
        let n = cs.len() - 1;
        let c0 = cs.drop_last();
        let b0 = bs.take(n);
        let prev = lemma_document_blocks(c0, b0, alg);
        let last = block(cs.last(), bs[n], alg).unwrap();
        if cs.last().diffable() {
            lemma_block_opens_with_paths_and_kind(cs.last(), bs[n], alg);
            lemma_kind_letter(cs.last());
        }
        let parts = prev.push(last);
        assert(parts.drop_last() =~= prev);
        assert forall|i: int| 0 <= i < n implies #[trigger] parts[i] == prev[i] && cs[i] == c0[i] by {}
        parts
    }
}

/// The document of changes that are all additions (what a commit without parents yields
/// against the empty tree): every rendered block opens with its `diff --git` line, then a
/// `new file mode` line; its header is exactly `addition_header`, which names `/dev/null` as
/// the old side.
pub proof fn lemma_additions_document(cs: Seq<PathChange>, bs: Seq<BlobPair>, alg: Algorithm) -> (parts: Seq<
    Seq<u8>,
>)
    requires
        cs.len() == bs.len(),
        forall|i: int| 0 <= i < cs.len() ==> (#[trigger] cs[i]) is Addition,
        document(cs, bs, alg) is Ok,
    ensures
        parts.len() == cs.len(),
        join(parts) == document(cs, bs, alg).unwrap(),
        forall|i: int| 0 <= i < cs.len() && !cs[i].diffable() ==> (#[trigger] parts[i]).len() == 0,
        forall|i: int|
            0 <= i < cs.len() && cs[i].diffable() ==> (#[trigger] parts[i]).len() >= opening(
                cs[i],
            ).len() && parts[i].take(opening(cs[i]).len() as int) == git_line(
                paths(cs[i]).0,
                paths(cs[i]).0,
            ) + lit("new file mode "),
        forall|i: int|
            0 <= i < cs.len() && cs[i].diffable() ==> (#[trigger] cs[i]).header()
                == crate::patch::addition_header(paths(cs[i]).0, cs[i]->Addition_mode, cs[i]->Addition_id),
{
    let parts = lemma_document_blocks(cs, bs, alg);
    assert forall|i: int| 0 <= i < cs.len() && cs[i].diffable() implies (#[trigger] parts[i]).take(
        opening(cs[i]).len() as int,
    ) == git_line(paths(cs[i]).0, paths(cs[i]).0) + lit("new file mode ") by {
        assert(cs[i] is Addition);
    }
    parts
}

} // verus!
