//! Git-format patch text for the path changes between two trees.
use crate::oid::{hex_text, ObjectId, SHORT_LEN};
use crate::text::{lit, nl, push_bytes, push_nl, push_str};
use vstd::prelude::*;

verus! {

/// A change to one path between a parent tree and a commit's tree. A mode is the entry's
/// numeric file mode (such as `0o100644`); a location is the path's bytes.
pub enum PathChange {
    Addition { location: Vec<u8>, mode: u16, id: ObjectId },
    Deletion { location: Vec<u8>, mode: u16, id: ObjectId },
    Modification {
        location: Vec<u8>,
        previous_mode: u16,
        mode: u16,
        previous_id: ObjectId,
        id: ObjectId,
    },
    Rewrite {
        source_location: Vec<u8>,
        location: Vec<u8>,
        source_mode: u16,
        mode: u16,
        source_id: ObjectId,
        id: ObjectId,
    },
}

/// Whether a file mode is that of a regular (possibly executable) file.
pub open spec fn blob_mode(m: u16) -> bool {
    m / 4096 == 8
}

/// Whether a file mode is that of a regular (possibly executable) file.
pub fn is_blob_mode(m: u16) -> (r: bool)
    ensures
        r == blob_mode(m),
{
    m / 4096 == 8
}

/// The octal digit of `m` at position `k` (counting from the least significant).
pub open spec fn octal_digit(m: u16, k: nat) -> u8 {
    (48 + (m as nat / pow8(k)) % 8) as u8
}

pub open spec fn pow8(k: nat) -> nat
    decreases k,
{
    if k == 0 { 1 } else { 8 * pow8((k - 1) as nat) }
}

/// A file mode as six octal digits.
pub open spec fn octal6(m: u16) -> Seq<u8> {
    seq![
        octal_digit(m, 5),
        octal_digit(m, 4),
        octal_digit(m, 3),
        octal_digit(m, 2),
        octal_digit(m, 1),
        octal_digit(m, 0),
    ]
}

/// The short (seven digit) hex form of an id.
pub open spec fn short(id: ObjectId) -> Seq<u8> {
    hex_text(id.view()).take(SHORT_LEN as int)
}

/// The short form of the all-zero id.
pub open spec fn short_null() -> Seq<u8> {
    Seq::new(SHORT_LEN as nat, |i: int| 48u8)
}

/// `diff --git a/<a> b/<b>`
pub open spec fn git_line(a: Seq<u8>, b: Seq<u8>) -> Seq<u8> {
    lit("diff --git a/") + a + lit(" b/") + b + nl()
}

/// `index <old>..<new>`, without the line end.
pub open spec fn index_text(old: Seq<u8>, new: Seq<u8>) -> Seq<u8> {
    lit("index ") + old + lit("..") + new
}

/// `--- a/<a>` and `+++ b/<b>`.
pub open spec fn path_lines(a: Seq<u8>, b: Seq<u8>) -> Seq<u8> {
    lit("--- a/") + a + nl() + lit("+++ b/") + b + nl()
}

impl PathChange {
    /// Whether every entry of the change is a regular file (only those are rendered).
    pub open spec fn diffable(&self) -> bool {
        match *self {
            PathChange::Addition { mode, .. } => blob_mode(mode),
            PathChange::Deletion { mode, .. } => blob_mode(mode),
            PathChange::Modification { mode, .. } => blob_mode(mode),
            PathChange::Rewrite { source_mode, mode, .. } => blob_mode(source_mode) && blob_mode(mode),
        }
    }

    /// Whether the change is a rename or copy whose content is unchanged.
    pub open spec fn pure_rewrite(&self) -> bool {
        match *self {
            PathChange::Rewrite { source_id, id, .. } => source_id.view() == id.view(),
            _ => false,
        }
    }

    /// Whether the change is a rename or copy with new content whose mode also changed.
    pub open spec fn rewrite_mode_changed(&self) -> bool {
        match *self {
            PathChange::Rewrite { source_id, id, source_mode, mode, .. } => source_id.view()
                != id.view() && source_mode != mode,
            _ => false,
        }
    }

    /// Every id of the change holds twenty bytes.
    pub open spec fn wf(&self) -> bool {
        match *self {
            PathChange::Addition { id, .. } => id.wf(),
            PathChange::Deletion { id, .. } => id.wf(),
            PathChange::Modification { previous_id, id, .. } => previous_id.wf() && id.wf(),
            PathChange::Rewrite { source_id, id, .. } => source_id.wf() && id.wf(),
        }
    }

    /// The header block of the change's patch.
    pub open spec fn header(&self) -> Seq<u8> {
        match *self {
            PathChange::Addition { location, mode, id } => addition_header(location@, mode, id),
            PathChange::Deletion { location, mode, id } => deletion_header(location@, mode, id),
            PathChange::Modification { location, mode, previous_id, id, .. } => content_header(
                location@,
                location@,
                mode,
                previous_id,
                id,
            ),
            PathChange::Rewrite { source_location, location, source_mode, mode, source_id, id } => {
                if source_id.view() == id.view() {
                    rename_header(source_location@, location@, source_mode, mode)
                } else {
                    content_header(source_location@, location@, mode, source_id, id)
                }
            },
        }
    }

    /// Whether the change is rendered at all.
    pub fn is_diffable(&self) -> (r: bool)
        ensures
            r == self.diffable(),
    {
        match self {
            PathChange::Addition { mode, .. } => is_blob_mode(*mode),
            PathChange::Deletion { mode, .. } => is_blob_mode(*mode),
            PathChange::Modification { mode, .. } => is_blob_mode(*mode),
            PathChange::Rewrite { source_mode, mode, .. } => is_blob_mode(*source_mode)
                && is_blob_mode(*mode),
        }
    }

    /// Whether the change is a rename or copy whose content is unchanged.
    pub fn is_pure_rewrite(&self) -> (r: bool)
        ensures
            r == self.pure_rewrite(),
    {
        match self {
            PathChange::Rewrite { source_id, id, .. } => source_id.same(id),
            _ => false,
        }
    }

    /// Whether the patch of this change carries a line diff of the two contents.
    pub fn wants_content(&self) -> (r: bool)
        ensures
            r == (self.diffable() && !self.pure_rewrite()),
    {
        self.is_diffable() && !self.is_pure_rewrite()
    }

    /// Appends the header block of the change's patch to `out`.
    pub fn write_header(&self, out: &mut Vec<u8>)
        requires
            self.wf(),
        ensures
            final(out)@ == old(out)@ + self.header(),
    {
        match self {
            PathChange::Addition { location, mode, id } => {
                write_addition_header(out, location, *mode, id);
            },
            PathChange::Deletion { location, mode, id } => {
                write_deletion_header(out, location, *mode, id);
            },
            PathChange::Modification { location, mode, previous_id, id, .. } => {
                write_content_header(out, location, location, *mode, previous_id, id);
            },
            PathChange::Rewrite { source_location, location, source_mode, mode, source_id, id } => {
                if source_id.same(id) {
                    write_rename_header(out, source_location, location, *source_mode, *mode);
                } else {
                    write_content_header(out, source_location, location, *mode, source_id, id);
                }
            },
        }
    }
}

/// The header of an added file.
pub open spec fn addition_header(location: Seq<u8>, mode: u16, id: ObjectId) -> Seq<u8> {
    git_line(location, location) + lit("new file mode ") + (octal6(mode) + nl() + index_text(
        short_null(),
        short(id),
    ) + nl() + lit("--- /dev/null") + nl() + lit("+++ b/") + location + nl())
}

/// The header of a deleted file.
pub open spec fn deletion_header(location: Seq<u8>, mode: u16, id: ObjectId) -> Seq<u8> {
    git_line(location, location) + lit("deleted file mode ") + (octal6(mode) + nl() + index_text(
        short(id),
        short_null(),
    ) + nl() + lit("--- a/") + location + nl() + lit("+++ /dev/null") + nl())
}

/// The header of a file whose content changed, from `source` to `location`.
pub open spec fn content_header(
    source: Seq<u8>,
    location: Seq<u8>,
    mode: u16,
    old_id: ObjectId,
    id: ObjectId,
) -> Seq<u8> {
    git_line(source, location) + lit("index ") + (short(old_id) + lit("..") + short(id) + lit(" ")
        + octal6(mode) + nl() + path_lines(source, location))
}

/// The mode lines of a pure rename: present only where the mode changed.
pub open spec fn mode_lines(source_mode: u16, mode: u16) -> Seq<u8> {
    if source_mode != mode {
        lit("old mode ") + (octal6(source_mode) + nl() + lit("new mode ") + octal6(mode) + nl())
    } else {
        Seq::empty()
    }
}

/// The header of a rename or copy with unchanged content; such a patch has no hunks.
pub open spec fn rename_header(source: Seq<u8>, location: Seq<u8>, source_mode: u16, mode: u16) -> Seq<
    u8,
> {
    git_line(source, location) + (mode_lines(source_mode, mode) + (lit("similarity index 100%")
        + (nl() + lit("rename from ") + source + nl() + lit("rename to ") + location + nl())))
}

fn write_addition_header(out: &mut Vec<u8>, location: &Vec<u8>, mode: u16, id: &ObjectId)
    requires
        id.wf(),
    ensures
        final(out)@ == old(out)@ + addition_header(location@, mode, *id),
{
    let ghost start = old(out)@;
    write_git_line(out, location, location);
    push_str(out, "new file mode ");
    write_octal6(out, mode);
    push_nl(out);
    write_index(out, &ObjectId::null(), id);
    push_nl(out);
    push_str(out, "--- /dev/null");
    push_nl(out);
    push_str(out, "+++ b/");
    push_bytes(out, location.as_slice());
    push_nl(out);
    assert(out@ =~= start + addition_header(location@, mode, *id));
}

fn write_deletion_header(out: &mut Vec<u8>, location: &Vec<u8>, mode: u16, id: &ObjectId)
    requires
        id.wf(),
    ensures
        final(out)@ == old(out)@ + deletion_header(location@, mode, *id),
{
    let ghost start = old(out)@;
    write_git_line(out, location, location);
    push_str(out, "deleted file mode ");
    write_octal6(out, mode);
    push_nl(out);
    write_index(out, id, &ObjectId::null());
    push_nl(out);
    push_str(out, "--- a/");
    push_bytes(out, location.as_slice());
    push_nl(out);
    push_str(out, "+++ /dev/null");
    push_nl(out);
    assert(out@ =~= start + deletion_header(location@, mode, *id));
}

fn write_content_header(
    out: &mut Vec<u8>,
    source: &Vec<u8>,
    location: &Vec<u8>,
    mode: u16,
    old_id: &ObjectId,
    id: &ObjectId,
)
    requires
        old_id.wf(),
        id.wf(),
    ensures
        final(out)@ == old(out)@ + content_header(source@, location@, mode, *old_id, *id),
{
    let ghost start = old(out)@;
    write_git_line(out, source, location);
    write_index(out, old_id, id);
    push_str(out, " ");
    write_octal6(out, mode);
    push_nl(out);
    write_path_lines(out, source, location);
    assert(out@ =~= start + content_header(source@, location@, mode, *old_id, *id));
}

fn write_rename_header(
    out: &mut Vec<u8>,
    source: &Vec<u8>,
    location: &Vec<u8>,
    source_mode: u16,
    mode: u16,
)
    ensures
        final(out)@ == old(out)@ + rename_header(source@, location@, source_mode, mode),
{
    let ghost start = old(out)@;
    write_git_line(out, source, location);
    write_mode_lines(out, source_mode, mode);
    push_str(out, "similarity index 100%");
    write_rename_lines(out, source, location);
    assert(out@ =~= start + rename_header(source@, location@, source_mode, mode));
}

fn write_mode_lines(out: &mut Vec<u8>, source_mode: u16, mode: u16)
    ensures
        final(out)@ == old(out)@ + mode_lines(source_mode, mode),
{
    let ghost start = old(out)@;
    if source_mode != mode {
        push_str(out, "old mode ");
        write_octal6(out, source_mode);
        push_nl(out);
        push_str(out, "new mode ");
        write_octal6(out, mode);
        push_nl(out);
    }
    assert(out@ =~= start + mode_lines(source_mode, mode));
}

fn write_rename_lines(out: &mut Vec<u8>, source: &Vec<u8>, location: &Vec<u8>)
    ensures
        final(out)@ == old(out)@ + (nl() + lit("rename from ") + source@ + nl() + lit("rename to ")
            + location@ + nl()),
{
    let ghost start = old(out)@;
    push_nl(out);
    push_str(out, "rename from ");
    push_bytes(out, source.as_slice());
    push_nl(out);
    push_str(out, "rename to ");
    push_bytes(out, location.as_slice());
    push_nl(out);
    assert(out@ =~= start + (nl() + lit("rename from ") + source@ + nl() + lit("rename to ")
        + location@ + nl()));
}

fn write_git_line(out: &mut Vec<u8>, a: &Vec<u8>, b: &Vec<u8>)
    ensures
        final(out)@ == old(out)@ + git_line(a@, b@),
{
    let ghost start = old(out)@;
    push_str(out, "diff --git a/");
    push_bytes(out, a.as_slice());
    push_str(out, " b/");
    push_bytes(out, b.as_slice());
    push_nl(out);
    assert(out@ =~= start + git_line(a@, b@));
}

fn write_path_lines(out: &mut Vec<u8>, a: &Vec<u8>, b: &Vec<u8>)
    ensures
        final(out)@ == old(out)@ + path_lines(a@, b@),
{
    let ghost start = old(out)@;
    push_str(out, "--- a/");
    push_bytes(out, a.as_slice());
    push_nl(out);
    push_str(out, "+++ b/");
    push_bytes(out, b.as_slice());
    push_nl(out);
    assert(out@ =~= start + path_lines(a@, b@));
}

proof fn lemma_short_null(z: ObjectId)
    requires
        z.wf(),
        z.view() == Seq::new(20nat, |i: int| 0u8),
    ensures
        short(z) == short_null(),
{
    crate::oid::lemma_hex_text_len(z.view());
    assert forall|i: int| 0 <= i < SHORT_LEN implies short(z)[i] == 48u8 by {
        crate::oid::lemma_hex_text_index(z.view(), i / 2);
        assert(i == 2 * (i / 2) || i == 2 * (i / 2) + 1);
    }
    assert(short(z) =~= short_null());
}

fn write_index(out: &mut Vec<u8>, old_id: &ObjectId, new_id: &ObjectId)
    requires
        old_id.wf(),
        new_id.wf(),
    ensures
        final(out)@ == old(out)@ + index_text(short(*old_id), short(*new_id)),
        old_id.view() == Seq::new(20nat, |i: int| 0u8) ==> final(out)@ == old(out)@ + index_text(
            short_null(),
            short(*new_id),
        ),
        new_id.view() == Seq::new(20nat, |i: int| 0u8) ==> final(out)@ == old(out)@ + index_text(
            short(*old_id),
            short_null(),
        ),
{
    let ghost start = old(out)@;
    push_str(out, "index ");
    old_id.write_hex_prefix(out, SHORT_LEN);
    push_str(out, "..");
    new_id.write_hex_prefix(out, SHORT_LEN);
    proof {
        if old_id.view() == Seq::new(20nat, |i: int| 0u8) {
            lemma_short_null(*old_id);
        }
        if new_id.view() == Seq::new(20nat, |i: int| 0u8) {
            lemma_short_null(*new_id);
        }
    }
    assert(out@ =~= start + index_text(short(*old_id), short(*new_id)));
}

fn write_octal6(out: &mut Vec<u8>, m: u16)
    ensures
        final(out)@ == old(out)@ + octal6(m),
{
    let ghost start = old(out)@;
    let mut div: u16 = 32768;
    let mut k: usize = 6;
    proof {
        reveal_with_fuel(pow8, 6);
        assert(pow8(5) == 32768);
    }
    while k > 0
        invariant
            k <= 6,
            k > 0 ==> div as nat == pow8((k - 1) as nat),
            out@ == start + octal6(m).take(6 - k),
        decreases k,
    {
        let d = ((m / div) % 8) as u8;
        out.push(48 + d);
        proof {
            assert(out@ =~= start + octal6(m).take(6 - k + 1));
        }
        k = k - 1;
        if k > 0 {
            proof {
                assert(pow8(k as nat) == 8 * pow8((k - 1) as nat));
            }
            div = div / 8;
        }
    }
    assert(octal6(m).take(6) =~= octal6(m));
}

} // verus!
