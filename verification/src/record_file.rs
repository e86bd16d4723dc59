use vstd::prelude::*;

verus! {

/// A fresh error log file: an empty JSON object, `{}`.
pub open spec fn empty_file() -> Seq<u8> {
    seq![0x7bu8, 0x7du8]
}

/// One member of the file's JSON object: the key in double quotes, a colon,
/// and the value.
pub open spec fn member(key: Seq<u8>, value: Seq<u8>) -> Seq<u8> {
    seq![0x22u8] + key + seq![0x22u8, 0x3au8] + value
}

/// What is written over the closing brace of a file of `file_len` bytes to add
/// a member: a comma when the object already has a member (the file is
/// longer than `{}`), the member, and the closing brace again.
pub open spec fn insertion(file_len: int, key: Seq<u8>, value: Seq<u8>) -> Seq<u8> {
    (if file_len > 2 {
        seq![0x2cu8]
    } else {
        Seq::empty()
    }) + member(key, value) + seq![0x7du8]
}

/// The file once `bytes` are written at `offset`.
pub open spec fn written_at(content: Seq<u8>, offset: int, bytes: Seq<u8>) -> Seq<u8> {
    if offset + bytes.len() >= content.len() {
        content.take(offset) + bytes
    } else {
        content.take(offset) + bytes + content.skip(offset + bytes.len())
    }
}

/// The file once a member is added: the insertion written over its last byte.
pub open spec fn with_member(content: Seq<u8>, key: Seq<u8>, value: Seq<u8>) -> Seq<u8> {
    written_at(content, content.len() - 1, insertion(content.len() as int, key, value))
}

/// A fresh file with members added one after another.
pub open spec fn file_with(members: Seq<(Seq<u8>, Seq<u8>)>) -> Seq<u8>
    decreases members.len(),
{
    if members.len() == 0 {
        empty_file()
    } else {
        with_member(file_with(members.drop_last()), members.last().0, members.last().1)
    }
}

/// The members written out, separated by commas.
pub open spec fn joined(members: Seq<(Seq<u8>, Seq<u8>)>) -> Seq<u8>
    decreases members.len(),
{
    if members.len() == 0 {
        Seq::empty()
    } else if members.len() == 1 {
        member(members[0].0, members[0].1)
    } else {
        joined(members.drop_last()) + seq![0x2cu8] + member(members.last().0, members.last().1)
    }
}

/// The bytes of a fresh error log file.
pub fn empty_file_bytes() -> (b: Vec<u8>)
    ensures
        b@ == empty_file(),
{
    let mut b: Vec<u8> = Vec::new();
    b.push(0x7bu8);
    b.push(0x7du8);
    assert(b@ =~= empty_file());
    b
}

/// Where and what to write to add a member with `key` and `value` to an error
/// log file of `file_len` bytes: over its last byte, the insertion. `None`
/// for an empty file, which has no closing brace to write over.
pub fn member_insertion(file_len: u64, key: &[u8], value: &[u8]) -> (r: Option<(u64, Vec<u8>)>)
    ensures
        file_len == 0 ==> r is None,
        file_len > 0 ==> (r matches Some((offset, bytes)) && offset == file_len - 1 && bytes@
            == insertion(file_len as int, key@, value@)),
{
    if file_len == 0 {
        return None;
    }
    let mut out: Vec<u8> = Vec::new();
    if file_len > 2 {
        out.push(0x2cu8);
    }
    let ghost lead = out@;
    out.push(0x22u8);
    let mut i: usize = 0;
    while i < key.len()
        invariant
            i <= key@.len(),
            out@ == lead + seq![0x22u8] + key@.take(i as int),
        decreases key.len() - i,
    {
        out.push(key[i]);
        i = i + 1;
        assert(out@ =~= lead + seq![0x22u8] + key@.take(i as int));
    }
    assert(key@.take(key@.len() as int) =~= key@);
    out.push(0x22u8);
    out.push(0x3au8);
    let ghost head = out@;
    let mut j: usize = 0;
    while j < value.len()
        invariant
            j <= value@.len(),
            out@ == head + value@.take(j as int),
        decreases value.len() - j,
    {
        out.push(value[j]);
        j = j + 1;
        assert(out@ =~= head + value@.take(j as int));
    }
    assert(value@.take(value@.len() as int) =~= value@);
    out.push(0x7du8);
    assert(out@ =~= insertion(file_len as int, key@, value@));
    Some((file_len - 1, out))
}

proof fn lemma_joined_empty(members: Seq<(Seq<u8>, Seq<u8>)>)
    ensures
        joined(members).len() == 0 <==> members.len() == 0,
    decreases members.len(),
{
    if members.len() > 1 {
        lemma_joined_empty(members.drop_last());
    }
}

/// An error log file is always one JSON object holding the members added so
/// far, in order: `{` then the members separated by commas then `}`.
pub proof fn law_file_is_one_object(members: Seq<(Seq<u8>, Seq<u8>)>)
    ensures
        file_with(members) == seq![0x7bu8] + joined(members) + seq![0x7du8],
    decreases members.len(),
{
    if members.len() == 0 {
        assert(empty_file() =~= seq![0x7bu8] + joined(members) + seq![0x7du8]);
    } else {
        let p = members.drop_last();
        law_file_is_one_object(p);
        lemma_joined_empty(p);
        let c = file_with(p);
        assert(c.take(c.len() - 1) =~= seq![0x7bu8] + joined(p));
        if p.len() == 0 {
            assert(members.len() == 1);
            assert(members[0] == members.last());
        }
        assert(file_with(members) =~= seq![0x7bu8] + joined(members) + seq![0x7du8]);
    }
}

} // verus!
