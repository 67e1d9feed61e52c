use vstd::prelude::*;

verus! {

// ---------------------------------------------------------------------------
// Little-endian u32 encoding
// ---------------------------------------------------------------------------

/// The four bytes of `v`, least significant first.
pub open spec fn le_u32_bytes(v: u32) -> Seq<u8> {
    seq![
        (v % 0x100) as u8,
        ((v / 0x100) % 0x100) as u8,
        ((v / 0x1_0000) % 0x100) as u8,
        (v / 0x100_0000) as u8,
    ]
}

/// The values, each as four little-endian bytes, in order.
pub open spec fn le_u32s_bytes(values: Seq<u32>) -> Seq<u8>
    decreases values.len(),
{
    if values.len() == 0 {
        Seq::empty()
    } else {
        le_u32s_bytes(values.drop_last()) + le_u32_bytes(values.last())
    }
}

/// The number that four bytes denote, least significant first.
pub open spec fn le_value(bytes: Seq<u8>) -> int {
    bytes[0] + 0x100 * bytes[1] + 0x1_0000 * bytes[2] + 0x100_0000 * bytes[3]
}

/// The little-endian `u32` stored at `offset`.
pub open spec fn u32_at(bytes: Seq<u8>, offset: int) -> int {
    le_value(bytes.subrange(offset, offset + 4))
}

/// Law: the four bytes of a value give the value back.
pub proof fn law_le_u32_bytes_decode(v: u32)
    ensures
        le_u32_bytes(v).len() == 4,
        le_value(le_u32_bytes(v)) == v,
{
}

/// Law: the `i`-th value of an encoded sequence is read back at byte `4 * i`,
/// and the encoding is four bytes per value.
pub proof fn law_le_u32s_decode(values: Seq<u32>, i: int)
    requires
        0 <= i < values.len(),
    ensures
        le_u32s_bytes(values).len() == 4 * values.len(),
        u32_at(le_u32s_bytes(values), 4 * i) == values[i],
{
    lemma_le_u32s_bytes_len(values);
    law_le_u32s_bytes_position(values, i);
    law_le_u32_bytes_decode(values[i]);
}

proof fn lemma_le_u32s_bytes_len(values: Seq<u32>)
    ensures
        le_u32s_bytes(values).len() == 4 * values.len(),
    decreases values.len(),
{
    if values.len() > 0 {
        lemma_le_u32s_bytes_len(values.drop_last());
    }
}

/// Law: value `i` of the sequence sits at bytes `4 * i .. 4 * i + 4`.
pub proof fn law_le_u32s_bytes_position(values: Seq<u32>, i: int)
    requires
        0 <= i < values.len(),
    ensures
        le_u32s_bytes(values).subrange(4 * i, 4 * i + 4) == le_u32_bytes(values[i]),
    decreases values.len(),
{
    lemma_le_u32s_bytes_len(values.drop_last());
    if i < values.len() - 1 {
        law_le_u32s_bytes_position(values.drop_last(), i);
        assert(le_u32s_bytes(values).subrange(4 * i, 4 * i + 4) =~= le_u32s_bytes(
            values.drop_last(),
        ).subrange(4 * i, 4 * i + 4));
    } else {
        assert(le_u32s_bytes(values).subrange(4 * i, 4 * i + 4) =~= le_u32_bytes(values[i]));
    }
}

fn push_le_u32(bytes: &mut Vec<u8>, v: u32)
    ensures
        final(bytes)@ == old(bytes)@ + le_u32_bytes(v),
{
    bytes.push((v % 0x100) as u8);
    bytes.push(((v / 0x100) % 0x100) as u8);
    bytes.push(((v / 0x1_0000) % 0x100) as u8);
    bytes.push((v / 0x100_0000) as u8);
    assert(bytes@ =~= old(bytes)@ + le_u32_bytes(v));
}

/// Each value as four little-endian bytes, in order: the contents that
/// `write_u32_to_file` stores.
pub fn u32s_to_le_bytes(values: &[u32]) -> (bytes: Vec<u8>)
    ensures
        bytes@ == le_u32s_bytes(values@),
{
    let mut bytes: Vec<u8> = Vec::new();
    let mut i: usize = 0;
    while i < values.len()
        invariant
            i <= values@.len(),
            bytes@ == le_u32s_bytes(values@.take(i as int)),
        decreases values@.len() - i,
    {
        push_le_u32(&mut bytes, values[i]);
        assert(values@.take(i + 1).drop_last() =~= values@.take(i as int));
        i = i + 1;
    }
    assert(values@.take(i as int) =~= values@);
    bytes
}

// ---------------------------------------------------------------------------
// Comma-separated strings
// ---------------------------------------------------------------------------

/// The parts separated by commas.
pub open spec fn comma_joined(parts: Seq<Seq<char>>) -> Seq<char>
    decreases parts.len(),
{
    if parts.len() == 0 {
        Seq::empty()
    } else if parts.len() == 1 {
        parts[0]
    } else {
        comma_joined(parts.drop_last()) + ","@ + parts.last()
    }
}

/// The characters of each string.
pub open spec fn texts_of(strings: Seq<String>) -> Seq<Seq<char>> {
    strings.map_values(|s: String| s@)
}

/// The strings separated by commas: the contents that `write_strings_to_file`
/// stores.
pub fn join_with_commas(strings: &Vec<String>) -> (text: String)
    ensures
        text@ == comma_joined(texts_of(strings@)),
{
    let mut text = String::new();
    let mut i: usize = 0;
    while i < strings.len()
        invariant
            i <= strings@.len(),
            text@ == comma_joined(texts_of(strings@.take(i as int))),
        decreases strings@.len() - i,
    {
        if i > 0 {
            text.append(",");
        }
        text.append(strings[i].as_str());
        assert(texts_of(strings@.take(i + 1)).drop_last() =~= texts_of(strings@.take(i as int)));
        assert(texts_of(strings@.take(i + 1)).last() == strings@[i as int]@);
        if i == 0 {
            assert(texts_of(strings@.take(0)) =~= Seq::<Seq<char>>::empty());
        }
        i = i + 1;
    }
    assert(strings@.take(i as int) =~= strings@);
    text
}

// ---------------------------------------------------------------------------
// Trace matrices
// ---------------------------------------------------------------------------

/// A row-major matrix of `width` columns, each entry the canonical `u32` of a
/// field element.
pub struct MatrixData {
    pub width: usize,
    pub values: Vec<u32>,
}

/// Total number of entries of the matrices.
pub open spec fn total_entries(matrices: Seq<MatrixData>) -> nat
    decreases matrices.len(),
{
    if matrices.len() == 0 {
        0
    } else {
        total_entries(matrices.drop_last()) + matrices.last().values@.len()
    }
}

/// Size of the encoding: the matrix count, then height and width of each
/// matrix, then every entry, four bytes each.
pub open spec fn encoded_size(matrices: Seq<MatrixData>) -> nat {
    4 + 8 * matrices.len() + 4 * total_entries(matrices)
}

/// Height and width of each matrix, in order, as little-endian `u32`s; the
/// height is the number of entries divided by the width.
pub open spec fn dimensions_bytes(matrices: Seq<MatrixData>) -> Seq<u8>
    decreases matrices.len(),
{
    if matrices.len() == 0 {
        Seq::empty()
    } else {
        let m = matrices.last();
        dimensions_bytes(matrices.drop_last()) + le_u32_bytes((m.values@.len() / m.width as nat) as u32)
            + le_u32_bytes(m.width as u32)
    }
}

/// The entries of each matrix, in order, as little-endian `u32`s.
pub open spec fn entries_bytes(matrices: Seq<MatrixData>) -> Seq<u8>
    decreases matrices.len(),
{
    if matrices.len() == 0 {
        Seq::empty()
    } else {
        entries_bytes(matrices.drop_last()) + le_u32s_bytes(matrices.last().values@)
    }
}

/// The encoding of the matrices: count, dimensions, entries.
pub open spec fn matrices_bytes(matrices: Seq<MatrixData>) -> Seq<u8> {
    le_u32_bytes(matrices.len() as u32) + dimensions_bytes(matrices) + entries_bytes(matrices)
}

/// Every matrix has at least one column.
pub open spec fn has_columns(matrices: Seq<MatrixData>) -> bool {
    forall|i: int| 0 <= i < matrices.len() ==> #[trigger] matrices[i].width > 0
}

/// The buffer cannot hold the encoding.
#[derive(Debug, Clone, Copy, PartialEq, Eq, Structural)]
pub struct BufferTooSmall {
    /// Bytes the encoding needs.
    pub needed: usize,
    /// Bytes the buffer has.
    pub available: usize,
}

proof fn lemma_total_entries_prefix(matrices: Seq<MatrixData>, i: int)
    requires
        0 <= i < matrices.len(),
    ensures
        total_entries(matrices.take(i + 1)) == total_entries(matrices.take(i))
            + matrices[i].values@.len(),
        total_entries(matrices.take(i + 1)) <= total_entries(matrices),
    decreases matrices.len() - i,
{
    assert(matrices.take(i + 1).drop_last() =~= matrices.take(i));
    if i + 1 < matrices.len() {
        lemma_total_entries_prefix(matrices, i + 1);
    } else {
        assert(matrices.take(i + 1) =~= matrices);
    }
}

proof fn lemma_dimensions_bytes_len(matrices: Seq<MatrixData>)
    ensures
        dimensions_bytes(matrices).len() == 8 * matrices.len(),
    decreases matrices.len(),
{
    if matrices.len() > 0 {
        lemma_dimensions_bytes_len(matrices.drop_last());
    }
}

proof fn lemma_entries_bytes_len(matrices: Seq<MatrixData>)
    ensures
        entries_bytes(matrices).len() == 4 * total_entries(matrices),
    decreases matrices.len(),
{
    if matrices.len() > 0 {
        lemma_entries_bytes_len(matrices.drop_last());
        lemma_le_u32s_bytes_len(matrices.last().values@);
    }
}

/// Law: the encoding of the matrices is exactly `encoded_size` bytes long.
pub proof fn law_matrices_bytes_len(matrices: Seq<MatrixData>)
    ensures
        matrices_bytes(matrices).len() == encoded_size(matrices),
{
    lemma_dimensions_bytes_len(matrices);
    lemma_entries_bytes_len(matrices);
}

/// Overwrite the four bytes at `offset` with `v`, least significant first.
fn put_le_u32(buffer: &mut [u8], offset: usize, v: u32)
    requires
        offset + 4 <= old(buffer)@.len(),
    ensures
        final(buffer)@ == old(buffer)@.take(offset as int) + le_u32_bytes(v) + old(buffer)@.skip(
            offset + 4,
        ),
{
    buffer[offset] = (v % 0x100) as u8;
    buffer[offset + 1] = ((v / 0x100) % 0x100) as u8;
    buffer[offset + 2] = ((v / 0x1_0000) % 0x100) as u8;
    buffer[offset + 3] = (v / 0x100_0000) as u8;
    assert(buffer@ =~= old(buffer)@.take(offset as int) + le_u32_bytes(v) + old(buffer)@.skip(
        offset + 4,
    ));
}

/// Size of the encoding of the matrices, or `None` when it does not fit in
/// `usize`.
pub fn matrices_encoded_size(matrices: &Vec<MatrixData>) -> (size: Option<usize>)
    ensures
        match size {
            Some(s) => s == encoded_size(matrices@),
            None => encoded_size(matrices@) > usize::MAX,
        },
{
    let ghost ms = matrices@;
    let count = matrices.len();
    if count > (usize::MAX - 4) / 8 {
        return None;
    }
    let mut total: usize = 4 + count * 8;
    let mut i: usize = 0;
    while i < count
        invariant
            count == ms.len(),
            ms == matrices@,
            i <= count,
            total == 4 + 8 * count + 4 * total_entries(ms.take(i as int)),
        decreases count - i,
    {
        proof {
            lemma_total_entries_prefix(ms, i as int);
        }
        let len = matrices[i].values.len();
        if len > (usize::MAX - total) / 4 {
            return None;
        }
        total = total + len * 4;
        i = i + 1;
    }
    assert(ms.take(count as int) =~= ms);
    Some(total)
}

/// Write the matrices at the start of `buffer`: their count, then height and
/// width of each, then all entries, every number as four little-endian
/// bytes. Returns the number of bytes written; fails, leaving the buffer
/// untouched, when the buffer is smaller than the encoding.
pub fn write_matrixes_to_buffer(matrices: &Vec<MatrixData>, buffer: &mut [u8]) -> (result: Result<
    usize,
    BufferTooSmall,
>)
    requires
        old(buffer)@.len() >= encoded_size(matrices@) ==> has_columns(matrices@),
        encoded_size(matrices@) <= usize::MAX,
    ensures
        match result {
            Ok(written) => {
                &&& written == encoded_size(matrices@)
                &&& written <= old(buffer)@.len()
                &&& final(buffer)@ == matrices_bytes(matrices@) + old(buffer)@.skip(written as int)
            },
            Err(e) => {
                &&& e.needed == encoded_size(matrices@)
                &&& e.available == old(buffer)@.len()
                &&& e.available < e.needed
                &&& final(buffer)@ == old(buffer)@
            },
        },
{
    let ghost ms = matrices@;
    let ghost original = buffer@;
    let count = matrices.len();
    let mut total_size: usize = 4 + count * 8;
    let mut i: usize = 0;
    while i < count
        invariant
            count == ms.len(),
            ms == matrices@,
            i <= count,
            encoded_size(ms) <= usize::MAX,
            total_size == 4 + 8 * count + 4 * total_entries(ms.take(i as int)),
        decreases count - i,
    {
        proof {
            lemma_total_entries_prefix(ms, i as int);
        }
        total_size = total_size + matrices[i].values.len() * 4;
        i = i + 1;
    }
    assert(ms.take(count as int) =~= ms);
    if buffer.len() < total_size {
        return Err(BufferTooSmall { needed: total_size, available: buffer.len() });
    }
    proof {
        law_matrices_bytes_len(ms);
        lemma_dimensions_bytes_len(ms);
    }
    let mut offset: usize = 0;
    put_le_u32(buffer, offset, count as u32);
    offset = offset + 4;
    assert(buffer@ =~= le_u32_bytes(count as u32) + original.skip(offset as int));

    // Dimensions of every matrix.
    let mut i: usize = 0;
    while i < count
        invariant
            count == ms.len(),
            ms == matrices@,
            has_columns(ms),
            i <= count,
            original.len() == buffer@.len(),
            total_size == encoded_size(ms),
            total_size <= original.len(),
            offset == 4 + 8 * i,
            buffer@ == le_u32_bytes(count as u32) + dimensions_bytes(ms.take(i as int))
                + original.skip(offset as int),
        decreases count - i,
    {
        proof {
            lemma_dimensions_bytes_len(ms.take(i as int));
            lemma_entries_bytes_len(ms);
            assert(ms[i as int].width > 0);
        }
        let width = matrices[i].width;
        let height = matrices[i].values.len() / width;
        let ghost prefix = le_u32_bytes(count as u32) + dimensions_bytes(ms.take(i as int));
        assert(prefix.len() == offset);
        put_le_u32(buffer, offset, height as u32);
        assert(buffer@ =~= prefix + le_u32_bytes(height as u32) + original.skip(offset + 4));
        offset = offset + 4;
        put_le_u32(buffer, offset, width as u32);
        offset = offset + 4;
        assert(ms.take(i + 1).drop_last() =~= ms.take(i as int));
        assert(buffer@ =~= le_u32_bytes(count as u32) + dimensions_bytes(ms.take(i + 1))
            + original.skip(offset as int));
        i = i + 1;
    }
    assert(ms.take(count as int) =~= ms);

    // Entries of every matrix.
    let mut i: usize = 0;
    while i < count
        invariant
            count == ms.len(),
            ms == matrices@,
            i <= count,
            original.len() == buffer@.len(),
            total_size == encoded_size(ms),
            total_size <= original.len(),
            offset == 4 + 8 * count + 4 * total_entries(ms.take(i as int)),
            buffer@ == le_u32_bytes(count as u32) + dimensions_bytes(ms) + entries_bytes(
                ms.take(i as int),
            ) + original.skip(offset as int),
        decreases count - i,
    {
        proof {
            lemma_total_entries_prefix(ms, i as int);
        }
        let values = &matrices[i].values;
        let ghost start = offset;
        let ghost before = le_u32_bytes(count as u32) + dimensions_bytes(ms) + entries_bytes(
            ms.take(i as int),
        );
        let mut j: usize = 0;
        while j < values.len()
            invariant
                values@ == ms[i as int].values@,
                j <= values@.len(),
                original.len() == buffer@.len(),
                total_entries(ms.take(i + 1)) <= total_entries(ms),
                total_entries(ms.take(i + 1)) == total_entries(ms.take(i as int)) + values@.len(),
                total_size == encoded_size(ms),
                total_size <= original.len(),
                start == 4 + 8 * count + 4 * total_entries(ms.take(i as int)),
                before.len() == start,
                count == ms.len(),
                offset == start + 4 * j,
                buffer@ == before + le_u32s_bytes(values@.take(j as int)) + original.skip(
                    offset as int,
                ),
            decreases values@.len() - j,
        {
            proof {
                lemma_le_u32s_bytes_len(values@.take(j as int));
            }
            put_le_u32(buffer, offset, values[j]);
            offset = offset + 4;
            assert(values@.take(j + 1).drop_last() =~= values@.take(j as int));
            assert(buffer@ =~= before + le_u32s_bytes(values@.take(j + 1)) + original.skip(
                offset as int,
            ));
            j = j + 1;
        }
        assert(values@.take(j as int) =~= values@);
        assert(ms.take(i + 1).drop_last() =~= ms.take(i as int));
        assert(buffer@ =~= le_u32_bytes(count as u32) + dimensions_bytes(ms) + entries_bytes(
            ms.take(i + 1),
        ) + original.skip(offset as int));
        i = i + 1;
    }
    assert(ms.take(count as int) =~= ms);
    Ok(offset)
}

// ---------------------------------------------------------------------------
// What the comma-joined text and the matrix encoding hold
// ---------------------------------------------------------------------------

/// Total number of characters of the parts.
pub open spec fn total_len(parts: Seq<Seq<char>>) -> nat
    decreases parts.len(),
{
    if parts.len() == 0 {
        0
    } else {
        total_len(parts.drop_last()) + parts.last().len()
    }
}

/// Where part `i` starts in the joined text: all earlier parts, each followed
/// by one separator.
pub open spec fn part_offset(parts: Seq<Seq<char>>, i: int) -> int {
    total_len(parts.take(i)) + i
}

proof fn lemma_total_len_prefix(parts: Seq<Seq<char>>, i: int)
    requires
        0 <= i < parts.len(),
    ensures
        total_len(parts.take(i + 1)) == total_len(parts.take(i)) + parts[i].len(),
        total_len(parts.take(i + 1)) <= total_len(parts),
    decreases parts.len() - i,
{
    assert(parts.take(i + 1).drop_last() =~= parts.take(i));
    if i + 1 < parts.len() {
        lemma_total_len_prefix(parts, i + 1);
    } else {
        assert(parts.take(i + 1) =~= parts);
    }
}

/// Law: the joined text is every part in order with a single `,` between
/// neighbours: its length is the parts' lengths plus one per separator, each
/// part sits at its offset, and a `,` follows every part but the last.
pub proof fn law_comma_joined_parts(parts: Seq<Seq<char>>)
    ensures
        parts.len() == 0 ==> comma_joined(parts).len() == 0,
        parts.len() >= 1 ==> comma_joined(parts).len() == total_len(parts) + parts.len() - 1,
        forall|i: int|
            0 <= i < parts.len() ==> comma_joined(parts).subrange(
                part_offset(parts, i),
                part_offset(parts, i) + parts[i].len(),
            ) == #[trigger] parts[i],
        forall|i: int|
            0 <= i < parts.len() - 1 ==> comma_joined(parts)[part_offset(parts, i)
                + #[trigger] parts[i].len()] == ',',
    decreases parts.len(),
{
    reveal_strlit(",");
    if parts.len() == 1 {
        assert(parts.drop_last() =~= Seq::<Seq<char>>::empty());
        assert(parts.take(0) =~= Seq::<Seq<char>>::empty());
        assert(comma_joined(parts).subrange(0, parts[0].len() as int) =~= parts[0]);
    } else if parts.len() >= 2 {
        let front = parts.drop_last();
        law_comma_joined_parts(front);
        let joined = comma_joined(parts);
        let head = comma_joined(front);
        assert(joined == head + ","@ + parts.last());
        assert forall|i: int| 0 <= i < parts.len() implies joined.subrange(
            part_offset(parts, i),
            part_offset(parts, i) + parts[i].len(),
        ) == #[trigger] parts[i] by {
            lemma_total_len_prefix(parts, i);
            if i < parts.len() - 1 {
                lemma_total_len_prefix(front, i);
                assert(parts.take(i) =~= front.take(i));
                assert(front[i] == parts[i]);
                assert(joined.subrange(part_offset(parts, i), part_offset(parts, i) + parts[i].len())
                    =~= head.subrange(part_offset(front, i), part_offset(front, i) + front[i].len()));
            } else {
                assert(parts.take(i) =~= front);
                assert(joined.subrange(part_offset(parts, i), part_offset(parts, i) + parts[i].len())
                    =~= parts.last());
            }
        }
        assert forall|i: int| 0 <= i < parts.len() - 1 implies joined[part_offset(parts, i)
            + #[trigger] parts[i].len()] == ',' by {
            lemma_total_len_prefix(front, i);
            assert(parts.take(i) =~= front.take(i));
            assert(front[i] == parts[i]);
            if i < parts.len() - 2 {
                assert(joined[part_offset(parts, i) + parts[i].len()] == head[part_offset(front, i)
                    + front[i].len()]);
            } else {
                assert(front.take(i) =~= front.drop_last());
                assert(part_offset(front, i) + front[i].len() == total_len(front) + front.len() - 1);
            }
        }
    }
}

proof fn lemma_dimensions_bytes_position(matrices: Seq<MatrixData>, i: int)
    requires
        0 <= i < matrices.len(),
    ensures
        dimensions_bytes(matrices).subrange(8 * i, 8 * i + 4) == le_u32_bytes(
            (matrices[i].values@.len() / matrices[i].width as nat) as u32,
        ),
        dimensions_bytes(matrices).subrange(8 * i + 4, 8 * i + 8) == le_u32_bytes(
            matrices[i].width as u32,
        ),
    decreases matrices.len(),
{
    let front = matrices.drop_last();
    lemma_dimensions_bytes_len(front);
    if i < matrices.len() - 1 {
        lemma_dimensions_bytes_position(front, i);
        assert(dimensions_bytes(matrices).subrange(8 * i, 8 * i + 4) =~= dimensions_bytes(
            front,
        ).subrange(8 * i, 8 * i + 4));
        assert(dimensions_bytes(matrices).subrange(8 * i + 4, 8 * i + 8) =~= dimensions_bytes(
            front,
        ).subrange(8 * i + 4, 8 * i + 8));
    } else {
        let m = matrices.last();
        assert(dimensions_bytes(matrices).subrange(8 * i, 8 * i + 4) =~= le_u32_bytes(
            (m.values@.len() / m.width as nat) as u32,
        ));
        assert(dimensions_bytes(matrices).subrange(8 * i + 4, 8 * i + 8) =~= le_u32_bytes(
            m.width as u32,
        ));
    }
}

proof fn lemma_entries_bytes_position(matrices: Seq<MatrixData>, i: int, j: int)
    requires
        0 <= i < matrices.len(),
        0 <= j < matrices[i].values@.len(),
    ensures
        entries_bytes(matrices).len() == 4 * total_entries(matrices),
        total_entries(matrices.take(i)) + j < total_entries(matrices),
        u32_at(entries_bytes(matrices), 4 * (total_entries(matrices.take(i)) + j))
            == matrices[i].values@[j],
    decreases matrices.len(),
{
    let front = matrices.drop_last();
    lemma_entries_bytes_len(matrices);
    lemma_entries_bytes_len(front);
    let values = matrices.last().values@;
    if i < matrices.len() - 1 {
        lemma_entries_bytes_position(front, i, j);
        assert(matrices.take(i) =~= front.take(i));
        let k = 4 * (total_entries(matrices.take(i)) + j);
        assert(entries_bytes(matrices).subrange(k, k + 4) =~= entries_bytes(front).subrange(
            k,
            k + 4,
        ));
    } else {
        assert(matrices.take(i) =~= front);
        law_le_u32s_decode(values, j);
        let k = 4 * (total_entries(front) + j);
        assert(entries_bytes(matrices).subrange(k, k + 4) =~= le_u32s_bytes(values).subrange(
            4 * j,
            4 * j + 4,
        ));
    }
}

/// Law: the encoding starts with the number of matrices.
pub proof fn law_matrices_count(matrices: Seq<MatrixData>)
    requires
        matrices.len() <= u32::MAX,
    ensures
        u32_at(matrices_bytes(matrices), 0) == matrices.len(),
{
    law_le_u32_bytes_decode(matrices.len() as u32);
    assert(matrices_bytes(matrices).subrange(0, 4) =~= le_u32_bytes(matrices.len() as u32));
}

/// Law: after the count, matrix `i` has its height at byte `4 + 8 * i` and its
/// width at byte `8 + 8 * i`; the height is the number of whole rows of
/// `width` entries.
pub proof fn law_matrices_dimensions(matrices: Seq<MatrixData>, i: int)
    requires
        0 <= i < matrices.len(),
        matrices[i].width > 0,
        matrices[i].width <= u32::MAX,
        matrices[i].values@.len() / matrices[i].width as nat <= u32::MAX,
    ensures
        ({
            let height = u32_at(matrices_bytes(matrices), 4 + 8 * i);
            let width = u32_at(matrices_bytes(matrices), 8 + 8 * i);
            let entries = matrices[i].values@.len();
            &&& width == matrices[i].width
            &&& height == entries / matrices[i].width as nat
            &&& height * width <= entries < height * width + width
        }),
{
    let m = matrices[i];
    let h = (m.values@.len() / m.width as nat) as u32;
    lemma_dimensions_bytes_position(matrices, i);
    lemma_dimensions_bytes_len(matrices);
    law_le_u32_bytes_decode(h);
    law_le_u32_bytes_decode(m.width as u32);
    let bytes = matrices_bytes(matrices);
    assert(bytes.subrange(4 + 8 * i, 8 + 8 * i) =~= dimensions_bytes(matrices).subrange(
        8 * i,
        8 * i + 4,
    ));
    assert(bytes.subrange(8 + 8 * i, 12 + 8 * i) =~= dimensions_bytes(matrices).subrange(
        8 * i + 4,
        8 * i + 8,
    ));
    let entries = m.values@.len() as int;
    let w = m.width as int;
    vstd::arithmetic::div_mod::lemma_fundamental_div_mod(entries, w);
    assert(h * w <= entries < h * w + w) by (nonlinear_arith)
        requires
            entries == w * (entries / w) + entries % w,
            0 <= entries % w < w,
            h == entries / w,
    ;
}

/// Law: after the dimensions, entry `j` of matrix `i` is stored at byte
/// `4 + 8 * count + 4 * (entries of the earlier matrices + j)`.
pub proof fn law_matrices_entries(matrices: Seq<MatrixData>, i: int, j: int)
    requires
        0 <= i < matrices.len(),
        0 <= j < matrices[i].values@.len(),
    ensures
        u32_at(
            matrices_bytes(matrices),
            4 + 8 * matrices.len() + 4 * (total_entries(matrices.take(i)) + j),
        ) == matrices[i].values@[j],
{
    lemma_entries_bytes_position(matrices, i, j);
    lemma_dimensions_bytes_len(matrices);
    let k = 4 * (total_entries(matrices.take(i)) + j);
    let start = 4 + 8 * matrices.len();
    assert(matrices_bytes(matrices).subrange(start + k, start + k + 4) =~= entries_bytes(
        matrices,
    ).subrange(k, k + 4));
}

} // verus!
