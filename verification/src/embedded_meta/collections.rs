use vstd::prelude::*;

use crate::embedded_meta::handles::{BaseHandle, Handle, TypedHandle};
use crate::error::AotError;
use crate::native_format::reader::{spec_decode_unsigned, spec_skip_integer, NativeReader};

verus! {

/// The offset behind `count` integer encodings that follow one another from
/// `offset` on, going by their markers alone.
pub open spec fn spec_skip_integers(data: Seq<u8>, offset: int, count: nat) -> Option<int>
    decreases count,
{
    if count == 0 {
        Some(offset)
    } else {
        match spec_skip_integer(data, offset) {
            Some(next) => spec_skip_integers(data, next, (count - 1) as nat),
            None => None,
        }
    }
}

/// The offset behind the collection of handles that starts at `offset`: a
/// count, and as many encoded handles.
pub open spec fn spec_collection_end(data: Seq<u8>, offset: int) -> Option<int> {
    match spec_decode_unsigned(data, offset) {
        Some((count, start)) => spec_skip_integers(data, start, count as nat),
        None => None,
    }
}

/// The offset behind the collection of bytes that starts at `offset`: a
/// count, and as many bytes. The bytes themselves need not be there.
pub open spec fn spec_bytes_end(data: Seq<u8>, offset: int) -> Option<int> {
    match spec_decode_unsigned(data, offset) {
        Some((count, start)) => if start + count <= usize::MAX {
            Some(start + count)
        } else {
            None
        },
        None => None,
    }
}

/// The handles of the kind `KIND` among the `remaining` encoded values that
/// follow one another from `offset` on, in order. A value of another kind is
/// passed over; at a value that cannot be decoded the collection ends.
pub open spec fn spec_typed_handles<const KIND: u8>(data: Seq<u8>, offset: int, remaining: nat)
    -> Seq<TypedHandle<KIND>>
    decreases remaining,
{
    if remaining == 0 {
        Seq::empty()
    } else {
        match spec_decode_unsigned(data, offset) {
            None => Seq::empty(),
            Some((value, next)) => {
                let rest = spec_typed_handles::<KIND>(data, next, (remaining - 1) as nat);
                match TypedHandle::<KIND>::spec_from_value(value) {
                    Ok(handle) => seq![handle] + rest,
                    Err(_) => rest,
                }
            },
        }
    }
}

/// The handles of any kind that the `remaining` encoded values are that
/// follow one another from `offset` on, in order. At a value that cannot be
/// decoded the collection ends.
pub open spec fn spec_base_handles(data: Seq<u8>, offset: int, remaining: nat) -> Seq<BaseHandle>
    decreases remaining,
{
    if remaining == 0 {
        Seq::empty()
    } else {
        match spec_decode_unsigned(data, offset) {
            None => Seq::empty(),
            Some((value, next)) => seq![BaseHandle::spec_from_value(value)->Ok_0]
                + spec_base_handles(data, next, (remaining - 1) as nat),
        }
    }
}

/// The handles of the collection of handles of the kind `KIND` that starts
/// at `offset`.
pub open spec fn spec_typed_collection<const KIND: u8>(data: Seq<u8>, offset: int) -> Result<
    Seq<TypedHandle<KIND>>,
    AotError,
> {
    match spec_decode_unsigned(data, offset) {
        Some((count, start)) => Ok(spec_typed_handles::<KIND>(data, start, count as nat)),
        None => Err(AotError::BadImage),
    }
}

/// The handles of the collection of handles of any kind that starts at
/// `offset`.
pub open spec fn spec_base_collection(data: Seq<u8>, offset: int) -> Result<
    Seq<BaseHandle>,
    AotError,
> {
    match spec_decode_unsigned(data, offset) {
        Some((count, start)) => Ok(spec_base_handles(data, start, count as nat)),
        None => Err(AotError::BadImage),
    }
}

/// All `remaining` encoded values that follow one another from `offset` on
/// as handles of the kind `KIND`: the first value that cannot be decoded or
/// is of another kind is an error.
pub open spec fn spec_all_typed_handles<const KIND: u8>(
    data: Seq<u8>,
    offset: int,
    remaining: nat,
) -> Result<Seq<TypedHandle<KIND>>, AotError>
    decreases remaining,
{
    if remaining == 0 {
        Ok(Seq::empty())
    } else {
        match spec_decode_unsigned(data, offset) {
            None => Err(AotError::BadImage),
            Some((value, next)) => match TypedHandle::<KIND>::spec_from_value(value) {
                Err(e) => Err(e),
                Ok(handle) => match spec_all_typed_handles::<KIND>(
                    data,
                    next,
                    (remaining - 1) as nat,
                ) {
                    Ok(rest) => Ok(seq![handle] + rest),
                    Err(e) => Err(e),
                },
            },
        }
    }
}

/// `found` followed by what `rest` holds, or the error of `rest`.
pub open spec fn spec_behind<T>(found: Seq<T>, rest: Result<Seq<T>, AotError>) -> Result<
    Seq<T>,
    AotError,
> {
    match rest {
        Ok(more) => Ok(found + more),
        Err(e) => Err(e),
    }
}

/// The `index`-th of the `remaining` encoded values that follow one another
/// from `offset` on, as a handle of the kind `KIND`: `None` where there are
/// not so many values, where one up to it cannot be decoded, and where it is
/// of another kind.
pub open spec fn spec_typed_handle_at<const KIND: u8>(
    data: Seq<u8>,
    offset: int,
    remaining: nat,
    index: nat,
) -> Option<TypedHandle<KIND>>
    decreases remaining,
{
    if remaining == 0 {
        None
    } else {
        match spec_decode_unsigned(data, offset) {
            None => None,
            Some((value, next)) => if index == 0 {
                match TypedHandle::<KIND>::spec_from_value(value) {
                    Ok(handle) => Some(handle),
                    Err(_) => None,
                }
            } else {
                spec_typed_handle_at::<KIND>(
                    data,
                    next,
                    (remaining - 1) as nat,
                    (index - 1) as nat,
                )
            },
        }
    }
}

/// Steps over `count` integer encodings.
pub fn skip_integers(reader: &NativeReader<'_>, offset: &mut usize, count: u32) -> (r: Result<
    (),
    AotError,
>)
    ensures
        match spec_skip_integers(reader@, *old(offset) as int, count as nat) {
            Some(next) => r is Ok && *final(offset) == next,
            None => r is Err && r->Err_0 == AotError::BadImage,
        },
{
    let ghost start = *offset as int;
    let mut i: u32 = 0;
    while i < count
        invariant
            i <= count,
            start == *old(offset),
            spec_skip_integers(reader@, *offset as int, (count - i) as nat) == spec_skip_integers(
                reader@,
                start,
                count as nat,
            ),
        decreases count - i,
    {
        match reader.skip_integer(offset) {
            Ok(()) => {},
            Err(e) => {
                assert(spec_skip_integers(reader@, *offset as int, (count - i) as nat) is None);
                return Err(e);
            },
        }
        i = i + 1;
    }
    Ok(())
}

/// A collection of handles of the kind `KIND` inside a record: the reader
/// and the offset at which the count of the collection is encoded. The
/// handles are decoded when they are asked for.
#[derive(Clone, Copy)]
pub struct TypedHandleCollection<'a, const KIND: u8> {
    pub reader: NativeReader<'a>,
    pub offset: usize,
}

/// A collection of handles of any kind inside a record.
#[derive(Clone, Copy)]
pub struct HandleCollection<'a> {
    pub reader: NativeReader<'a>,
    pub offset: usize,
}

/// A collection of bytes inside a record.
#[derive(Clone, Copy)]
pub struct ByteCollection<'a> {
    pub reader: NativeReader<'a>,
    pub offset: usize,
}

pub type CustomAttributeHandleCollection<'a> = TypedHandleCollection<'a, 0x21>;

pub type EventHandleCollection<'a> = TypedHandleCollection<'a, 0x22>;

pub type FieldHandleCollection<'a> = TypedHandleCollection<'a, 0x23>;

pub type GenericParameterHandleCollection<'a> = TypedHandleCollection<'a, 0x26>;

pub type MethodHandleCollection<'a> = TypedHandleCollection<'a, 0x28>;

pub type NamespaceDefinitionHandleCollection<'a> = TypedHandleCollection<'a, 0x2f>;

pub type ParameterHandleCollection<'a> = TypedHandleCollection<'a, 0x31>;

pub type PropertyHandleCollection<'a> = TypedHandleCollection<'a, 0x33>;

pub type ScopeDefinitionHandleCollection<'a> = TypedHandleCollection<'a, 0x38>;

pub type TypeDefinitionHandleCollection<'a> = TypedHandleCollection<'a, 0x3a>;

pub type TypeForwarderHandleCollection<'a> = TypedHandleCollection<'a, 0x3b>;

/// The state of a walk through a collection of handles of the kind `KIND`:
/// the offset of the next handle and the number of handles yet to come.
pub struct TypedHandleCollectionIter<'a, const KIND: u8> {
    pub reader: NativeReader<'a>,
    pub offset: usize,
    pub remaining: u32,
}

/// The state of a walk through a collection of handles of any kind.
pub struct HandleCollectionIter<'a> {
    pub reader: NativeReader<'a>,
    pub offset: usize,
    pub remaining: u32,
}

impl<'a, const KIND: u8> TypedHandleCollection<'a, KIND> {
    pub fn new(reader: NativeReader<'a>, offset: usize) -> (collection: Self)
        ensures
            collection.reader == reader,
            collection.offset == offset,
    {
        Self { reader, offset }
    }

    /// The number of handles that the collection says it holds.
    pub fn count(&self) -> (r: Result<u32, AotError>)
        ensures
            match spec_decode_unsigned(self.reader@, self.offset as int) {
                Some((count, _)) => r == Ok::<u32, AotError>(count),
                None => r == Err::<u32, AotError>(AotError::BadImage),
            },
    {
        let mut offset: usize = self.offset;
        self.reader.decode_unsigned(&mut offset)
    }

    /// A walk through the collection that stands before its first handle.
    pub fn iter(&self) -> (r: Result<TypedHandleCollectionIter<'a, KIND>, AotError>)
        ensures
            match spec_decode_unsigned(self.reader@, self.offset as int) {
                Some((count, start)) => r is Ok && r->Ok_0.reader == self.reader
                    && r->Ok_0.offset == start && r->Ok_0.remaining == count,
                None => r is Err && r->Err_0 == AotError::BadImage,
            },
    {
        let mut offset: usize = self.offset;
        let count = self.reader.decode_unsigned(&mut offset)?;
        Ok(TypedHandleCollectionIter { reader: self.reader, offset, remaining: count })
    }

    /// All handles of the collection, in order: a value that cannot be
    /// decoded or is of another kind is an error.
    pub fn all_handles(&self) -> (r: Result<Vec<TypedHandle<KIND>>, AotError>)
        ensures
            match spec_decode_unsigned(self.reader@, self.offset as int) {
                None => r is Err && r->Err_0 == AotError::BadImage,
                Some((count, start)) => match spec_all_typed_handles::<KIND>(
                    self.reader@,
                    start,
                    count as nat,
                ) {
                    Ok(handles) => r is Ok && r->Ok_0@ == handles,
                    Err(e) => r is Err && r->Err_0 == e,
                },
            },
    {
        let mut it = self.iter()?;
        let ghost all = it.all_remaining_handles();
        let ghost first = it.offset as int;
        let ghost count = it.remaining;
        let mut handles: Vec<TypedHandle<KIND>> = Vec::new();
        assert(spec_behind(handles@, it.all_remaining_handles()) =~= all) by {
            if all is Ok {
                assert(handles@ + all->Ok_0 =~= all->Ok_0);
            }
        }
        while it.remaining > 0
            invariant
                it.reader == self.reader,
                spec_decode_unsigned(self.reader@, self.offset as int) == Some((count, first)),
                all == spec_all_typed_handles::<KIND>(self.reader@, first, count as nat),
                spec_behind(handles@, it.all_remaining_handles()) == all,
            decreases it.remaining,
        {
            let ghost before = it.all_remaining_handles();
            let ghost collected = handles@;
            match it.next() {
                Some(Ok(handle)) => {
                    handles.push(handle);
                    proof {
                        let rest = it.all_remaining_handles();
                        if rest is Ok {
                            assert(handles@ + rest->Ok_0 =~= collected + (seq![handle]
                                + rest->Ok_0));
                        }
                    }
                },
                Some(Err(e)) => {
                    return Err(e);
                },
                None => {},
            }
        }
        proof {
            assert(handles@ + Seq::<TypedHandle<KIND>>::empty() =~= handles@);
        }
        Ok(handles)
    }

    /// The `index`-th value of the collection as a handle.
    pub fn get(&self, index: usize) -> (r: Option<TypedHandle<KIND>>)
        ensures
            r == match spec_decode_unsigned(self.reader@, self.offset as int) {
                None => None,
                Some((count, start)) => spec_typed_handle_at::<KIND>(
                    self.reader@,
                    start,
                    count as nat,
                    index as nat,
                ),
            },
    {
        let mut it = match self.iter() {
            Ok(it) => it,
            Err(_) => {
                return None;
            },
        };
        let ghost wanted = spec_typed_handle_at::<KIND>(
            it.reader@,
            it.offset as int,
            it.remaining as nat,
            index as nat,
        );
        let ghost first = it.offset as int;
        let ghost count = it.remaining;
        let mut left: usize = index;
        while it.remaining > 0
            invariant
                it.reader == self.reader,
                spec_decode_unsigned(self.reader@, self.offset as int) == Some((count, first)),
                wanted == spec_typed_handle_at::<KIND>(
                    self.reader@,
                    first,
                    count as nat,
                    index as nat,
                ),
                spec_typed_handle_at::<KIND>(
                    it.reader@,
                    it.offset as int,
                    it.remaining as nat,
                    left as nat,
                ) == wanted,
            decreases it.remaining,
        {
            match it.next() {
                Some(Ok(handle)) => {
                    if left == 0 {
                        return Some(handle);
                    }
                },
                Some(Err(AotError::BadImage)) => {
                    return None;
                },
                Some(Err(AotError::InvalidMetaHandle)) => {
                    if left == 0 {
                        return None;
                    }
                },
                None => {},
            }
            left = left - 1;
        }
        None
    }

    /// The handles of the collection, in order, without those of another
    /// kind.
    pub fn handles(&self) -> (r: Result<Vec<TypedHandle<KIND>>, AotError>)
        ensures
            match spec_typed_collection::<KIND>(self.reader@, self.offset as int) {
                Ok(handles) => r is Ok && r->Ok_0@ == handles,
                Err(e) => r is Err && r->Err_0 == e,
            },
    {
        let it = self.iter()?;
        Ok(it.collect())
    }
}

impl<'a, const KIND: u8> TypedHandleCollectionIter<'a, KIND> {
    /// What the walk has yet to yield, without the handles of another kind.
    pub open spec fn remaining_handles(&self) -> Seq<TypedHandle<KIND>> {
        spec_typed_handles::<KIND>(self.reader@, self.offset as int, self.remaining as nat)
    }

    /// What the walk has yet to yield, where a value that is no handle of
    /// the kind is an error.
    pub open spec fn all_remaining_handles(&self) -> Result<Seq<TypedHandle<KIND>>, AotError> {
        spec_all_typed_handles::<KIND>(self.reader@, self.offset as int, self.remaining as nat)
    }

    /// The next handle, or why the next value is none; `None` behind the
    /// last one.
    pub fn next(&mut self) -> (r: Option<Result<TypedHandle<KIND>, AotError>>)
        ensures
            final(self).reader == old(self).reader,
            old(self).remaining == 0 ==> r is None && *final(self) == *old(self),
            old(self).remaining > 0 ==> final(self).remaining == old(self).remaining - 1 && (
            match spec_decode_unsigned(old(self).reader@, old(self).offset as int) {
                Some((value, next)) => r == Some(TypedHandle::<KIND>::spec_from_value(value))
                    && final(self).offset == next,
                None => r == Some(Err::<TypedHandle<KIND>, AotError>(AotError::BadImage))
                    && final(self).offset == old(self).offset,
            }),
    {
        if self.remaining == 0 {
            return None;
        }
        self.remaining = self.remaining - 1;
        let mut offset: usize = self.offset;
        let r = match self.reader.decode_unsigned(&mut offset) {
            Ok(value) => TypedHandle::<KIND>::from_value(value),
            Err(e) => Err(e),
        };
        self.offset = offset;
        Some(r)
    }

    /// Everything that the walk has yet to yield, without the handles of
    /// another kind.
    pub fn collect(self) -> (handles: Vec<TypedHandle<KIND>>)
        ensures
            handles@ == self.remaining_handles(),
    {
        let mut it = self;
        let mut handles: Vec<TypedHandle<KIND>> = Vec::new();
        assert(handles@ + it.remaining_handles() =~= self.remaining_handles());
        while it.remaining > 0
            invariant
                it.reader == self.reader,
                handles@ + it.remaining_handles() == self.remaining_handles(),
            decreases it.remaining,
        {
            let ghost before = it.remaining_handles();
            let ghost collected = handles@;
            match it.next() {
                Some(Ok(handle)) => {
                    handles.push(handle);
                    assert(handles@ + it.remaining_handles() =~= collected + before);
                },
                Some(Err(AotError::BadImage)) => {
                    assert(before =~= Seq::empty());
                    assert(handles@ =~= self.remaining_handles());
                    return handles;
                },
                Some(Err(AotError::InvalidMetaHandle)) => {},
                None => {},
            }
        }
        assert(handles@ =~= self.remaining_handles());
        handles
    }
}

impl<'a> HandleCollection<'a> {
    pub fn new(reader: NativeReader<'a>, offset: usize) -> (collection: Self)
        ensures
            collection.reader == reader,
            collection.offset == offset,
    {
        Self { reader, offset }
    }

    /// The number of handles that the collection says it holds.
    pub fn count(&self) -> (r: Result<u32, AotError>)
        ensures
            match spec_decode_unsigned(self.reader@, self.offset as int) {
                Some((count, _)) => r == Ok::<u32, AotError>(count),
                None => r == Err::<u32, AotError>(AotError::BadImage),
            },
    {
        let mut offset: usize = self.offset;
        self.reader.decode_unsigned(&mut offset)
    }

    /// A walk through the collection that stands before its first handle.
    pub fn iter(&self) -> (r: Result<HandleCollectionIter<'a>, AotError>)
        ensures
            match spec_decode_unsigned(self.reader@, self.offset as int) {
                Some((count, start)) => r is Ok && r->Ok_0.reader == self.reader
                    && r->Ok_0.offset == start && r->Ok_0.remaining == count,
                None => r is Err && r->Err_0 == AotError::BadImage,
            },
    {
        let mut offset: usize = self.offset;
        let count = self.reader.decode_unsigned(&mut offset)?;
        Ok(HandleCollectionIter { reader: self.reader, offset, remaining: count })
    }

    /// The handles of the collection, in order.
    pub fn handles(&self) -> (r: Result<Vec<BaseHandle>, AotError>)
        ensures
            match spec_base_collection(self.reader@, self.offset as int) {
                Ok(handles) => r is Ok && r->Ok_0@ == handles,
                Err(e) => r is Err && r->Err_0 == e,
            },
    {
        let it = self.iter()?;
        Ok(it.collect())
    }
}

impl<'a> HandleCollectionIter<'a> {
    /// What the walk has yet to yield.
    pub open spec fn remaining_handles(&self) -> Seq<BaseHandle> {
        spec_base_handles(self.reader@, self.offset as int, self.remaining as nat)
    }

    /// The next handle, or why the next value is none; `None` behind the
    /// last one.
    pub fn next(&mut self) -> (r: Option<Result<BaseHandle, AotError>>)
        ensures
            final(self).reader == old(self).reader,
            old(self).remaining == 0 ==> r is None && *final(self) == *old(self),
            old(self).remaining > 0 ==> final(self).remaining == old(self).remaining - 1 && (
            match spec_decode_unsigned(old(self).reader@, old(self).offset as int) {
                Some((value, next)) => r == Some(BaseHandle::spec_from_value(value))
                    && final(self).offset == next,
                None => r == Some(Err::<BaseHandle, AotError>(AotError::BadImage))
                    && final(self).offset == old(self).offset,
            }),
    {
        if self.remaining == 0 {
            return None;
        }
        self.remaining = self.remaining - 1;
        let mut offset: usize = self.offset;
        let r = match self.reader.decode_unsigned(&mut offset) {
            Ok(value) => BaseHandle::from_value(value),
            Err(e) => Err(e),
        };
        self.offset = offset;
        Some(r)
    }

    /// Everything that the walk has yet to yield.
    pub fn collect(self) -> (handles: Vec<BaseHandle>)
        ensures
            handles@ == self.remaining_handles(),
    {
        let mut it = self;
        let mut handles: Vec<BaseHandle> = Vec::new();
        assert(handles@ + it.remaining_handles() =~= self.remaining_handles());
        while it.remaining > 0
            invariant
                it.reader == self.reader,
                handles@ + it.remaining_handles() == self.remaining_handles(),
            decreases it.remaining,
        {
            let ghost before = it.remaining_handles();
            let ghost collected = handles@;
            match it.next() {
                Some(Ok(handle)) => {
                    handles.push(handle);
                    assert(handles@ + it.remaining_handles() =~= collected + before);
                },
                Some(Err(_)) => {
                    assert(before =~= Seq::empty());
                    assert(handles@ =~= self.remaining_handles());
                    return handles;
                },
                None => {},
            }
        }
        assert(handles@ =~= self.remaining_handles());
        handles
    }
}

impl<'a> ByteCollection<'a> {
    pub fn new(reader: NativeReader<'a>, offset: usize) -> (collection: Self)
        ensures
            collection.reader == reader,
            collection.offset == offset,
    {
        Self { reader, offset }
    }

    /// The number of bytes that the collection says it holds.
    pub fn count(&self) -> (r: Result<u32, AotError>)
        ensures
            match spec_decode_unsigned(self.reader@, self.offset as int) {
                Some((count, _)) => r == Ok::<u32, AotError>(count),
                None => r == Err::<u32, AotError>(AotError::BadImage),
            },
    {
        let mut offset: usize = self.offset;
        self.reader.decode_unsigned(&mut offset)
    }
}

/// The collection of handles of the kind `KIND` that starts at `offset`,
/// and the offset behind it.
pub open spec fn spec_read_typed_collection<'a, const KIND: u8>(
    reader: NativeReader<'a>,
    offset: int,
) -> (Result<TypedHandleCollection<'a, KIND>, AotError>, int) {
    match spec_collection_end(reader@, offset) {
        Some(next) => (Ok(TypedHandleCollection { reader, offset: offset as usize }), next),
        None => (Err(AotError::BadImage), offset),
    }
}

/// The collection of handles of any kind that starts at `offset`, and the
/// offset behind it.
pub open spec fn spec_read_handle_collection<'a>(reader: NativeReader<'a>, offset: int) -> (
    Result<HandleCollection<'a>, AotError>,
    int,
) {
    match spec_collection_end(reader@, offset) {
        Some(next) => (Ok(HandleCollection { reader, offset: offset as usize }), next),
        None => (Err(AotError::BadImage), offset),
    }
}

/// The collection of bytes that starts at `offset`, and the offset behind
/// it.
pub open spec fn spec_read_byte_collection<'a>(reader: NativeReader<'a>, offset: int) -> (
    Result<ByteCollection<'a>, AotError>,
    int,
) {
    match spec_bytes_end(reader@, offset) {
        Some(next) => (Ok(ByteCollection { reader, offset: offset as usize }), next),
        None => (Err(AotError::BadImage), offset),
    }
}

/// Moves `offset` behind the collection of handles that starts at it.
fn skip_collection(reader: &NativeReader<'_>, offset: &mut usize) -> (r: Result<(), AotError>)
    ensures
        match spec_collection_end(reader@, *old(offset) as int) {
            Some(next) => r is Ok && *final(offset) == next,
            None => r is Err && r->Err_0 == AotError::BadImage && *final(offset) == *old(offset),
        },
{
    let mut cursor: usize = *offset;
    let count = reader.decode_unsigned(&mut cursor)?;
    skip_integers(reader, &mut cursor, count)?;
    *offset = cursor;
    Ok(())
}

/// Takes the collection of handles of the kind `KIND` that starts at
/// `offset` and moves `offset` behind it.
pub fn read_typed_collection<'a, const KIND: u8>(reader: &NativeReader<'a>, offset: &mut usize)
    -> (r: Result<TypedHandleCollection<'a, KIND>, AotError>)
    ensures
        (r, *final(offset) as int) == spec_read_typed_collection::<KIND>(
            *reader,
            *old(offset) as int,
        ),
{
    let collection = TypedHandleCollection::new(*reader, *offset);
    skip_collection(reader, offset)?;
    Ok(collection)
}

/// Takes the collection of handles of any kind that starts at `offset` and
/// moves `offset` behind it.
pub fn read_handle_collection<'a>(reader: &NativeReader<'a>, offset: &mut usize) -> (r: Result<
    HandleCollection<'a>,
    AotError,
>)
    ensures
        (r, *final(offset) as int) == spec_read_handle_collection(*reader, *old(offset) as int),
{
    let collection = HandleCollection::new(*reader, *offset);
    skip_collection(reader, offset)?;
    Ok(collection)
}

/// Takes the collection of bytes that starts at `offset` and moves `offset`
/// behind it.
pub fn read_byte_collection<'a>(reader: &NativeReader<'a>, offset: &mut usize) -> (r: Result<
    ByteCollection<'a>,
    AotError,
>)
    ensures
        (r, *final(offset) as int) == spec_read_byte_collection(*reader, *old(offset) as int),
{
    let collection = ByteCollection::new(*reader, *offset);
    let mut cursor: usize = *offset;
    let length = reader.decode_unsigned(&mut cursor)?;
    let _ = reader.len();
    match cursor.checked_add(length as usize) {
        Some(end) => {
            *offset = end;
            Ok(collection)
        },
        None => Err(AotError::BadImage),
    }
}

} // verus!
