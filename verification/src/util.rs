//! The view core and the fixed-width primitives.
//!
//! The view core lays a typed, read-only record over a caller's bytes without
//! copying them: a record borrows the bytes and reads its fields out of them.
//! The only thing that can be wrong with a buffer is its length.
//!
//! The primitives are byte runs of a length fixed by their type: inert
//! padding, text of bounded length, and flags addressed bit by bit.

use crate::bitfield::{
    get_flag,
    lemma_byte_of_flags,
    lemma_get_after_with,
    lemma_with_keeps_bits,
    spec_get_flag,
    with_flag,
};
use std::borrow::Cow;
use std::marker::PhantomData;
use vstd::arithmetic::power2::lemma2_to64;
use vstd::prelude::*;
use vstd::slice::slice_subrange;
use vstd::std_specs::convert::{FromSpecImpl, TryFromSpecImpl};
use vstd::utf8::{
    decode_utf8,
    encode_utf8,
    encode_utf8_decode_utf8,
    encode_utf8_valid_utf8,
    valid_utf8,
};

verus! {

/// A record type that may be laid over raw bytes.
///
/// Such a record has a fixed, positive length, and every pattern of that many
/// bytes is one of its values: a field that is an enumeration has a variant
/// for each pattern of its bits, so that no accessor can meet bytes it has no
/// answer for. A record borrows the bytes it lies over, and its view is those
/// bytes.
pub trait TransmuteSafe<'a>: Sized + View<V = Seq<u8>> {
    /// The length of the record in bytes.
    spec fn size() -> nat;

    /// The length of the record in bytes.
    fn byte_len() -> (len: usize)
        ensures
            len == Self::size(),
            len > 0,
    ;

    /// Lays the record over `bytes`, which have its length.
    fn over(bytes: &'a [u8]) -> (record: Self)
        requires
            bytes@.len() == Self::size(),
        ensures
            record@ == bytes@,
    ;

    /// The bytes that the record lies over. There are always as many as the
    /// record is long.
    fn as_bytes(&self) -> (bytes: &'a [u8])
        ensures
            bytes@ == self@,
            bytes@.len() == Self::size(),
    ;
}

/// Casting bytes to a typed view, or to a run of typed views.
pub trait FromBytes<'a> {
    /// What a legal buffer is viewed as.
    type Output;

    /// Whether a buffer of `len` bytes is structurally legal.
    spec fn legal(len: nat) -> bool;

    /// Whether `out` is the view of `bytes`.
    spec fn shows(bytes: Seq<u8>, out: Self::Output) -> bool;

    /// Views `bytes`, or fails with their length when it is not legal. The
    /// bytes are not copied.
    fn from_bytes(bytes: &'a [u8]) -> (viewed: Result<Self::Output, usize>)
        ensures
            Self::legal(bytes@.len()) ==> viewed is Ok && Self::shows(bytes@, viewed->Ok_0),
            !Self::legal(bytes@.len()) ==> viewed == Err::<Self::Output, usize>(bytes.len()),
    ;
}

/// A single record: legal are exactly the buffers of the record's length.
impl<'a, T: TransmuteSafe<'a>> FromBytes<'a> for T {
    type Output = T;

    open spec fn legal(len: nat) -> bool {
        len == T::size()
    }

    open spec fn shows(bytes: Seq<u8>, out: T) -> bool {
        out@ == bytes
    }

    fn from_bytes(bytes: &'a [u8]) -> (viewed: Result<T, usize>) {
        if bytes.len() == T::byte_len() {
            Ok(T::over(bytes))
        } else {
            Err(bytes.len())
        }
    }
}

/// A run of records: legal are exactly the buffers whose length is a
/// multiple of the record's. The run lies over all of the buffer, and
/// allocates nothing.
impl<'a, T: TransmuteSafe<'a>> FromBytes<'a> for [T] {
    type Output = Records<'a, T>;

    open spec fn legal(len: nat) -> bool {
        len % T::size() == 0
    }

    open spec fn shows(bytes: Seq<u8>, out: Records<'a, T>) -> bool {
        out@ == bytes
    }

    fn from_bytes(bytes: &'a [u8]) -> (viewed: Result<Records<'a, T>, usize>) {
        let size = T::byte_len();
        if bytes.len() % size == 0 {
            Ok(Records { bytes, of: PhantomData })
        } else {
            Err(bytes.len())
        }
    }
}

/// A run of records of one type that lie end to end in a caller's bytes:
/// record `i` lies over the `i`-th stretch of the record's length. The run
/// borrows the bytes, and its view is those bytes.
#[derive(Debug)]
pub struct Records<'a, T: TransmuteSafe<'a>> {
    bytes: &'a [u8],
    of: PhantomData<T>,
}

impl<'a, T: TransmuteSafe<'a>> View for Records<'a, T> {
    type V = Seq<u8>;

    closed spec fn view(&self) -> Seq<u8> {
        self.bytes@
    }
}

impl<'a, T: TransmuteSafe<'a>> Records<'a, T> {
    /// A run lies over a whole number of records.
    #[verifier::type_invariant]
    spec fn well_formed(self) -> bool {
        self.bytes@.len() % T::size() == 0
    }

    /// How many records the run holds.
    pub open spec fn spec_len(&self) -> nat {
        self@.len() / T::size()
    }

    /// The bytes that record `index` lies over.
    pub open spec fn stretch(&self, index: int) -> Seq<u8> {
        self@.subrange(index * T::size(), (index + 1) * T::size())
    }

    /// How many records the run holds: they fill its bytes.
    pub fn len(&self) -> (count: usize)
        ensures
            count == self.spec_len(),
            count * T::size() == self@.len(),
    {
        proof {
            use_type_invariant(self);
        }
        let size = T::byte_len();
        let total = self.bytes.len();
        let count = total / size;
        assert(count * size == total) by (nonlinear_arith)
            requires
                count == total / size,
                total % size == 0,
                size > 0,
        ;
        count
    }

    /// Whether the run holds no record.
    pub fn is_empty(&self) -> (empty: bool)
        ensures
            empty == (self@.len() == 0),
    {
        self.bytes.len() == 0
    }

    /// Record `index`, or `None` for an index at or past the number of
    /// records. The record borrows its stretch of the bytes.
    pub fn get(&self, index: usize) -> (record: Option<T>)
        ensures
            index < self.spec_len() ==> record is Some && record->Some_0@ == self.stretch(
                index as int,
            ),
            index >= self.spec_len() ==> record is None,
    {
        let count = self.len();
        if index >= count {
            None
        } else {
            let size = T::byte_len();
            let total = self.bytes.len();
            assert(index * size + size == (index + 1) * size && (index + 1) * size <= count
                * size) by (nonlinear_arith)
                requires
                    index < count,
                    size > 0,
            ;
            assert(count * size == total);
            let start = index * size;
            Some(T::over(slice_subrange(self.bytes, start, start + size)))
        }
    }

    /// The bytes that the run lies over: a whole number of records.
    pub fn as_bytes(&self) -> (bytes: &'a [u8])
        ensures
            bytes@ == self@,
            bytes@.len() % T::size() == 0,
    {
        proof {
            use_type_invariant(self);
        }
        self.bytes
    }
}

/// Which lengths are legal: a buffer is viewed as one record exactly when it
/// has the record's length, and as a run of records exactly when its length
/// is a multiple of the record's. A buffer that is one record is also a run,
/// of that one record.
pub proof fn lemma_legal_lengths<'a, T: TransmuteSafe<'a>>(len: nat)
    requires
        T::size() > 0,
    ensures
        <T as FromBytes<'a>>::legal(len) <==> len == T::size(),
        <[T] as FromBytes<'a>>::legal(len) <==> len % T::size() == 0,
        <T as FromBytes<'a>>::legal(len) ==> <[T] as FromBytes<'a>>::legal(len),
{
    if len == T::size() {
        assert(len % len == 0) by (nonlinear_arith)
            requires
                len > 0,
        ;
    }
}

/// `N` bytes of padding, with no meaning: they keep the fields after them at
/// their offsets. They are made as zeros and never read.
#[derive(Clone, Copy)]
pub struct Reserved<const SIZE: usize>([u8; SIZE]);

impl<const SIZE: usize> View for Reserved<SIZE> {
    type V = Seq<u8>;

    closed spec fn view(&self) -> Seq<u8> {
        self.0@
    }
}

impl<const SIZE: usize> Default for Reserved<SIZE> {
    fn default() -> (padding: Self)
        ensures
            padding@ == zeros(SIZE as nat),
    {
        let padding = Reserved([0u8; SIZE]);
        assert(padding@ =~= zeros(SIZE as nat));
        padding
    }
}

/// `len` zero bytes.
pub open spec fn zeros(len: nat) -> Seq<u8> {
    Seq::new(len, |i: int| 0u8)
}

/// The text that `String::from_utf8_lossy` makes of `bytes`: what they
/// decode to, every ill-formed stretch replaced by U+FFFD.
pub uninterp spec fn lossy_text(bytes: Seq<u8>) -> Seq<char>;

/// `String::from_utf8_lossy` of std. Its result is a function of the bytes
/// alone, named [`lossy_text`]; of bytes that are well-formed UTF-8 it is the
/// text that they encode.
pub assume_specification<'a>[ String::from_utf8_lossy ](v: &'a [u8]) -> (text: Cow<'a, str>)
    ensures
        text@ == lossy_text(v@),
        valid_utf8(v@) ==> text@ == decode_utf8(v@),
;

/// The byte that fills a text field behind its text: NUL. Text ends before
/// the NUL bytes at the end of its field; every other byte of the field is
/// part of the text, well-formed or not.
pub const PADDING: u8 = 0x00;

/// `len` padding bytes.
pub open spec fn padding(len: nat) -> Seq<u8> {
    Seq::new(len, |i: int| PADDING)
}

/// `bytes` followed by as many padding bytes as bring them to `size` bytes.
/// Meant for `bytes` no longer than `size`.
pub open spec fn padded(bytes: Seq<u8>, size: nat) -> Seq<u8> {
    bytes + padding((size - bytes.len()) as nat)
}

/// Whether `bytes` end in text: they are empty, or their last byte is no
/// padding byte.
pub open spec fn ends_in_text(bytes: Seq<u8>) -> bool {
    bytes.len() == 0 || bytes.last() != PADDING
}

/// `bytes` without the padding at their end: they end with their last byte
/// that is no padding byte.
pub open spec fn unpadded(bytes: Seq<u8>) -> Seq<u8>
    decreases bytes.len(),
{
    if bytes.len() > 0 && bytes.last() == PADDING {
        unpadded(bytes.drop_last())
    } else {
        bytes
    }
}

/// The text that a text field holds: the text of its bytes before the
/// padding. Every byte before the padding counts, and what is not UTF-8
/// among them is shown as the replacement character, so that reading never
/// fails. Well-formed text is borrowed from `bytes`.
pub fn text_before_padding<'a>(bytes: &'a [u8]) -> (text: Cow<'a, str>)
    ensures
        text@ == lossy_text(unpadded(bytes@)),
        valid_utf8(unpadded(bytes@)) ==> text@ == decode_utf8(unpadded(bytes@)),
{
    let mut end: usize = bytes.len();
    assert(bytes@.subrange(0, end as int) =~= bytes@);
    while end > 0 && bytes[end - 1] == PADDING
        invariant
            end <= bytes@.len(),
            unpadded(bytes@) == unpadded(bytes@.subrange(0, end as int)),
        decreases end,
    {
        assert(bytes@.subrange(0, end as int).drop_last() =~= bytes@.subrange(0, end - 1));
        end = end - 1;
    }
    String::from_utf8_lossy(slice_subrange(bytes, 0, end))
}

/// `N` bytes that are meant to hold text. Text shorter than `N` bytes is
/// followed by padding, which is NUL bytes. What does not decode as UTF-8 is
/// kept, and shows as a replacement character when the text is read.
#[derive(Clone, Copy)]
pub struct FixedStr<const SIZE: usize>([u8; SIZE]);

impl<const SIZE: usize> View for FixedStr<SIZE> {
    type V = Seq<u8>;

    closed spec fn view(&self) -> Seq<u8> {
        self.0@
    }
}

impl<const SIZE: usize> FixedStr<SIZE> {
    /// The one value that holds `bytes`. Meant for `SIZE` bytes.
    pub closed spec fn holding(bytes: Seq<u8>) -> Self {
        choose|held: Self| held.0@ == bytes
    }

    /// A value always holds `SIZE` bytes.
    pub proof fn lemma_len(self)
        ensures
            self@.len() == SIZE,
    {
    }

    /// Two values that hold the same bytes are the same value.
    pub proof fn lemma_same_bytes(self, other: Self)
        requires
            self@ == other@,
        ensures
            self == other,
    {
        assert(self.0 =~= other.0);
    }

    /// A value is the one that holds its bytes.
    pub proof fn lemma_holding(self)
        ensures
            Self::holding(self@) == self,
    {
        let held = Self::holding(self@);
        assert(held.0@ == self.0@);
        held.lemma_same_bytes(self);
    }

    /// Holds `bytes` as they are.
    pub fn from_array(bytes: [u8; SIZE]) -> (held: Self)
        ensures
            held@ == bytes@,
    {
        FixedStr(bytes)
    }

    /// The text in these bytes: the text before the padding. Never fails:
    /// every byte before the padding that is not UTF-8 is shown as the
    /// replacement character.
    pub fn to_string_lossy(&self) -> (text: Cow<'_, str>)
        ensures
            text@ == lossy_text(unpadded(self@)),
            valid_utf8(unpadded(self@)) ==> text@ == decode_utf8(unpadded(self@)),
    {
        text_before_padding(self.0.as_slice())
    }

    /// The bytes themselves, padding and all.
    pub fn as_bytes(&self) -> (bytes: &[u8])
        ensures
            bytes@ == self@,
            bytes@.len() == SIZE,
    {
        self.0.as_slice()
    }
}

impl<const SIZE: usize> From<FixedStr<SIZE>> for String {
    /// The text before the padding, as `to_string_lossy` reads it.
    fn from(val: FixedStr<SIZE>) -> (text: String)
        ensures
            text@ == lossy_text(unpadded(val@)),
            valid_utf8(unpadded(val@)) ==> text@ == decode_utf8(unpadded(val@)),
    {
        match val.to_string_lossy() {
            Cow::Borrowed(text) => text.to_owned(),
            Cow::Owned(text) => text,
        }
    }
}

impl<const SIZE: usize> FromSpecImpl<FixedStr<SIZE>> for String {
    /// Nothing is said through `from_spec`: no `String` can be written down
    /// in ghost code. What `from` returns is stated on `from`.
    open spec fn obeys_from_spec() -> bool {
        false
    }

    open spec fn from_spec(val: FixedStr<SIZE>) -> String {
        arbitrary()
    }
}

impl<'a, const SIZE: usize> TryFrom<&'a [u8]> for FixedStr<SIZE> {
    type Error = usize;

    /// Holds `bytes`, followed by padding, or fails with their number when
    /// there are more than `SIZE`. Bytes that do not themselves end in the
    /// padding byte are what the value holds before its padding, whatever
    /// their number: their text reads back as it was. Bytes that end in the
    /// padding byte cannot be told from padded ones, and read back without
    /// it.
    fn try_from(bytes: &'a [u8]) -> (held: Result<Self, usize>)
        ensures
            bytes@.len() <= SIZE ==> held is Ok && held->Ok_0@ == padded(bytes@, SIZE as nat),
            bytes@.len() <= SIZE ==> unpadded(held->Ok_0@) == unpadded(bytes@),
            bytes@.len() <= SIZE && ends_in_text(bytes@) ==> unpadded(held->Ok_0@) == bytes@,
            bytes@.len() > SIZE ==> held == Err::<Self, usize>(bytes.len()),
    {
        if bytes.len() > SIZE {
            Err(bytes.len())
        } else {
            let mut cpy = [PADDING; SIZE];
            let mut done: usize = 0;
            while done < bytes.len()
                invariant
                    done <= bytes@.len() <= SIZE,
                    forall|k: int| 0 <= k < done ==> cpy@[k] == bytes@[k],
                    forall|k: int| done <= k < SIZE ==> cpy@[k] == PADDING,
                decreases bytes@.len() - done,
            {
                cpy[done] = bytes[done];
                done = done + 1;
            }
            let held = FixedStr(cpy);
            proof {
                assert(held@ =~= padded(bytes@, SIZE as nat));
                held.lemma_holding();
                lemma_unpadded_of_padded(bytes@, SIZE as nat);
            }
            Ok(held)
        }
    }
}

impl<'a, const SIZE: usize> TryFromSpecImpl<&'a [u8]> for FixedStr<SIZE> {
    open spec fn obeys_try_from_spec() -> bool {
        true
    }

    open spec fn try_from_spec(bytes: &'a [u8]) -> Result<Self, usize> {
        if bytes@.len() > SIZE {
            Err(bytes.len())
        } else {
            Ok(Self::holding(padded(bytes@, SIZE as nat)))
        }
    }
}

impl<const SIZE: usize> TryFrom<String> for FixedStr<SIZE> {
    type Error = usize;

    /// Holds the UTF-8 bytes of `value`, followed by padding, or fails with
    /// their number when there are more than `SIZE`. The text of the value
    /// that is returned is the text of `value`, unless that ends in a NUL
    /// character: then it is that text without the NUL characters at its
    /// end.
    fn try_from(value: String) -> (held: Result<Self, usize>)
        ensures
            encode_utf8(value@).len() <= SIZE ==> held is Ok && held->Ok_0@ == padded(
                encode_utf8(value@),
                SIZE as nat,
            ),
            encode_utf8(value@).len() <= SIZE ==> unpadded(held->Ok_0@) == unpadded(
                encode_utf8(value@),
            ),
            encode_utf8(value@).len() <= SIZE && ends_in_text(encode_utf8(value@)) ==> valid_utf8(
                unpadded(held->Ok_0@),
            ) && decode_utf8(unpadded(held->Ok_0@)) == value@,
            encode_utf8(value@).len() > SIZE ==> held == Err::<Self, usize>(
                encode_utf8(value@).len() as usize,
            ),
    {
        proof {
            if encode_utf8(value@).len() <= SIZE && ends_in_text(encode_utf8(value@)) {
                lemma_string_is_kept(value@, SIZE as nat);
            }
        }
        let bytes = value.as_str().as_bytes();
        let held: Result<Self, usize> = FixedStr::try_from(bytes);
        held
    }
}

impl<const SIZE: usize> TryFromSpecImpl<String> for FixedStr<SIZE> {
    open spec fn obeys_try_from_spec() -> bool {
        true
    }

    open spec fn try_from_spec(value: String) -> Result<Self, usize> {
        if encode_utf8(value@).len() > SIZE {
            Err(encode_utf8(value@).len() as usize)
        } else {
            Ok(Self::holding(padded(encode_utf8(value@), SIZE as nat)))
        }
    }
}

/// Padding that is put behind bytes is taken off again with the padding
/// that the bytes ended in; bytes that end in text are left as they were.
pub proof fn lemma_unpadded_of_padded(source: Seq<u8>, size: nat)
    requires
        source.len() <= size,
    ensures
        unpadded(padded(source, size)) == unpadded(source),
        ends_in_text(source) ==> unpadded(padded(source, size)) == source,
    decreases size - source.len(),
{
    let whole = padded(source, size);
    if source.len() == size {
        assert(whole =~= source);
    } else {
        assert(whole.last() == PADDING);
        assert(whole.drop_last() =~= padded(source, (size - 1) as nat));
        lemma_unpadded_of_padded(source, (size - 1) as nat);
    }
}

/// Text that fits and does not end in the padding byte is kept whole:
/// padded to `size` bytes, what stands before the padding is the text again,
/// whether it fills all `size` bytes or fewer. So the text that is read back
/// is the text that went in.
pub proof fn lemma_text_is_kept(source: Seq<u8>, size: nat)
    requires
        valid_utf8(source),
        source.len() <= size,
        ends_in_text(source),
    ensures
        unpadded(padded(source, size)) == source,
        decode_utf8(unpadded(padded(source, size))) == decode_utf8(source),
{
    lemma_unpadded_of_padded(source, size);
}

/// The text of a `String` that fits and does not end in a NUL byte is read
/// back as it was.
pub proof fn lemma_string_is_kept(text: Seq<char>, size: nat)
    requires
        encode_utf8(text).len() <= size,
        ends_in_text(encode_utf8(text)),
    ensures
        unpadded(padded(encode_utf8(text), size)) == encode_utf8(text),
        valid_utf8(unpadded(padded(encode_utf8(text), size))),
        decode_utf8(unpadded(padded(encode_utf8(text), size))) == text,
{
    encode_utf8_valid_utf8(text);
    encode_utf8_decode_utf8(text);
    lemma_text_is_kept(encode_utf8(text), size);
}

/// Taking the padding off leaves every byte that is no padding byte where
/// it was: nothing but padding bytes at the end is left out, whether the
/// bytes before them are well-formed text or not.
pub proof fn lemma_unpadded_keeps_the_rest(bytes: Seq<u8>)
    ensures
        unpadded(bytes).len() <= bytes.len(),
        unpadded(bytes) == bytes.subrange(0, unpadded(bytes).len() as int),
        forall|i: int| unpadded(bytes).len() <= i < bytes.len() ==> bytes[i] == PADDING,
        ends_in_text(unpadded(bytes)),
    decreases bytes.len(),
{
    if bytes.len() > 0 && bytes.last() == PADDING {
        let rest = bytes.drop_last();
        lemma_unpadded_keeps_the_rest(rest);
        assert(rest.subrange(0, unpadded(rest).len() as int) =~= bytes.subrange(
            0,
            unpadded(rest).len() as int,
        ));
        assert forall|i: int| unpadded(bytes).len() <= i < bytes.len() implies bytes[i]
            == PADDING by {
            if i < rest.len() {
                assert(rest[i] == bytes[i]);
            }
        }
    } else {
        assert(bytes.subrange(0, bytes.len() as int) =~= bytes);
    }
}

/// `BYTES * 8` flags, each addressed by its index: flag `i` is bit `i % 8`
/// of byte `i / 8`. The view is the flags in the order of their indices.
#[derive(Clone, Copy)]
pub struct BitArray<const BYTES: usize>([u8; BYTES]);

/// The flags that `bytes` hold: flag `i` is bit `i % 8` of byte `i / 8`.
pub open spec fn flags_of(bytes: Seq<u8>) -> Seq<bool> {
    Seq::new(bytes.len() * 8, |i: int| spec_get_flag(bytes[i / 8] as u64, (i % 8) as u32))
}

impl<const BYTES: usize> View for BitArray<BYTES> {
    type V = Seq<bool>;

    closed spec fn view(&self) -> Seq<bool> {
        flags_of(self.0@)
    }
}

/// `bits` followed by as many cleared flags as bring them to `size` flags.
/// Meant for `bits` no longer than `size`.
pub open spec fn clear_padded(bits: Seq<bool>, size: nat) -> Seq<bool> {
    bits + Seq::new((size - bits.len()) as nat, |i: int| false)
}

impl<const BYTES: usize> BitArray<BYTES> {
    /// The one value that holds `bits`. Meant for `BYTES * 8` flags.
    pub closed spec fn holding(bits: Seq<bool>) -> Self {
        choose|held: Self| held@ == bits
    }

    /// A value always holds `BYTES * 8` flags.
    pub proof fn lemma_len(self)
        ensures
            self@.len() == BYTES * 8,
    {
    }

    /// Flag `bit` of byte `byte` is the flag at index `8 * byte + bit`.
    proof fn lemma_flag_at(self, byte: int, bit: int)
        requires
            0 <= byte < BYTES,
            0 <= bit < 8,
        ensures
            self@[8 * byte + bit] == spec_get_flag(self.0@[byte] as u64, bit as u32),
    {
        let index = 8 * byte + bit;
        assert(index / 8 == byte && index % 8 == bit);
    }

    /// Two values that hold the same flags are the same value.
    pub proof fn lemma_same_flags(self, other: Self)
        requires
            self@ == other@,
        ensures
            self == other,
    {
        assert forall|byte: int| 0 <= byte < BYTES implies self.0@[byte] == other.0@[byte] by {
            let mine = self.0@[byte];
            let theirs = other.0@[byte];
            lemma_byte_of_flags(mine);
            lemma_byte_of_flags(theirs);
            self.lemma_flag_at(byte, 0);
            self.lemma_flag_at(byte, 1);
            self.lemma_flag_at(byte, 2);
            self.lemma_flag_at(byte, 3);
            self.lemma_flag_at(byte, 4);
            self.lemma_flag_at(byte, 5);
            self.lemma_flag_at(byte, 6);
            self.lemma_flag_at(byte, 7);
            other.lemma_flag_at(byte, 0);
            other.lemma_flag_at(byte, 1);
            other.lemma_flag_at(byte, 2);
            other.lemma_flag_at(byte, 3);
            other.lemma_flag_at(byte, 4);
            other.lemma_flag_at(byte, 5);
            other.lemma_flag_at(byte, 6);
            other.lemma_flag_at(byte, 7);
        }
        assert(self.0 =~= other.0);
    }

    /// A value is the one that holds its flags.
    pub proof fn lemma_holding(self)
        ensures
            Self::holding(self@) == self,
    {
        let held = Self::holding(self@);
        assert(held@ == self@);
        held.lemma_same_flags(self);
    }

    /// Holds the flags of `bytes`.
    pub fn from_array(bytes: [u8; BYTES]) -> (held: Self)
        ensures
            held@ == flags_of(bytes@),
    {
        BitArray(bytes)
    }

    /// The flag at `index`, or `None` for an index at or past `BYTES * 8`.
    pub fn get(&self, index: usize) -> (flag: Option<bool>)
        ensures
            index < BYTES * 8 ==> flag == Some(self@[index as int]),
            index >= BYTES * 8 ==> flag is None,
    {
        if index / 8 >= BYTES {
            None
        } else {
            Some(get_flag(self.0[index / 8] as u64, (index % 8) as u32))
        }
    }

    /// Sets the flag at `index`, which is below `BYTES * 8`, to `val`. No
    /// other flag changes.
    pub fn set(&mut self, index: usize, val: bool)
        requires
            index < BYTES * 8,
        ensures
            final(self)@ == old(self)@.update(index as int, val),
            final(self)@[index as int] == val,
            forall|other: int|
                0 <= other < BYTES * 8 && other != index ==> final(self)@[other] == old(self)@[other],
    {
        let byte = self.0[index / 8];
        let bit = (index % 8) as u32;
        let changed = with_flag(byte as u64, bit, val) as u8;
        self.0[index / 8] = changed;
        proof {
            lemma2_to64();
            assert forall|i: int| 0 <= i < BYTES * 8 implies final(self)@[i] == old(self)@.update(
                index as int,
                val,
            )[i] by {
                if i / 8 == index / 8 {
                    if i == index {
                        lemma_get_after_with(byte as u64, bit, 1, if val {
                            1
                        } else {
                            0
                        });
                    } else {
                        lemma_with_keeps_bits(
                            byte as u64,
                            bit,
                            1,
                            if val {
                                1
                            } else {
                                0
                            },
                            (i % 8) as u32,
                        );
                    }
                }
            }
            assert(final(self)@ =~= old(self)@.update(index as int, val));
        }
    }
}

impl<const BYTES: usize> TryFrom<Vec<bool>> for BitArray<BYTES> {
    type Error = usize;

    /// Holds the flags of `value`, flag `i` at index `i`, and cleared flags
    /// after them; or fails with their number when there are more than
    /// `BYTES * 8`.
    fn try_from(value: Vec<bool>) -> (held: Result<Self, usize>)
        ensures
            value@.len() <= BYTES * 8 ==> held is Ok && held->Ok_0@ == clear_padded(
                value@,
                (BYTES * 8) as nat,
            ),
            value@.len() > BYTES * 8 ==> held == Err::<Self, usize>(value.len()),
    {
        let count = value.len();
        if count > 0 && (count - 1) / 8 >= BYTES {
            Err(count)
        } else {
            let mut res = BitArray([0u8; BYTES]);
            proof {
                lemma2_to64();
                assert(res@ =~= Seq::new((BYTES * 8) as nat, |i: int| false));
            }
            let mut bit: usize = 0;
            while bit < count
                invariant
                    bit <= count == value@.len() <= BYTES * 8,
                    forall|k: int| 0 <= k < bit ==> res@[k] == value@[k],
                    forall|k: int| bit <= k < BYTES * 8 ==> res@[k] == false,
                decreases count - bit,
            {
                res.set(bit, value[bit]);
                bit = bit + 1;
            }
            proof {
                assert(res@ =~= clear_padded(value@, (BYTES * 8) as nat));
                res.lemma_holding();
            }
            Ok(res)
        }
    }
}

impl<const BYTES: usize> TryFromSpecImpl<Vec<bool>> for BitArray<BYTES> {
    open spec fn obeys_try_from_spec() -> bool {
        true
    }

    open spec fn try_from_spec(value: Vec<bool>) -> Result<Self, usize> {
        if value@.len() > BYTES * 8 {
            Err(value.len())
        } else {
            Ok(Self::holding(clear_padded(value@, (BYTES * 8) as nat)))
        }
    }
}

impl<const BYTES: usize> From<BitArray<BYTES>> for Vec<bool> {
    /// All `BYTES * 8` flags, in the order of their indices.
    fn from(bits: BitArray<BYTES>) -> (flags: Vec<bool>)
        ensures
            flags@ == bits@,
    {
        let mut flags: Vec<bool> = Vec::new();
        let mut byte: usize = 0;
        while byte < BYTES
            invariant
                byte <= BYTES,
                flags@.len() == byte * 8,
                forall|k: int| 0 <= k < byte * 8 ==> flags@[k] == bits@[k],
            decreases BYTES - byte,
        {
            let held = bits.0[byte];
            let mut bit: u32 = 0;
            while bit < 8
                invariant
                    byte < BYTES,
                    bit <= 8,
                    held == bits.0@[byte as int],
                    flags@.len() == byte * 8 + bit,
                    forall|k: int| 0 <= k < byte * 8 + bit ==> flags@[k] == bits@[k],
                decreases 8 - bit,
            {
                flags.push(get_flag(held as u64, bit));
                bit = bit + 1;
            }
            byte = byte + 1;
        }
        assert(flags@ =~= bits@);
        flags
    }
}

impl<const BYTES: usize> FromSpecImpl<BitArray<BYTES>> for Vec<bool> {
    /// Nothing is said through `from_spec`: no `Vec` can be written down in
    /// ghost code. What `from` returns is stated on `from`.
    open spec fn obeys_from_spec() -> bool {
        false
    }

    open spec fn from_spec(bits: BitArray<BYTES>) -> Vec<bool> {
        arbitrary()
    }
}

/// Setting one flag leaves every other flag as it was, and the flag itself
/// reads back as it was set: `after` is `before` with the flag at `index`
/// set to `val`.
pub proof fn lemma_flags_independent<const BYTES: usize>(
    before: BitArray<BYTES>,
    after: BitArray<BYTES>,
    index: int,
    val: bool,
    other: int,
)
    requires
        0 <= index < BYTES * 8,
        0 <= other < BYTES * 8,
        after@ == before@.update(index, val),
    ensures
        after@[index] == val,
        other != index ==> after@[other] == before@[other],
{
}

} // verus!
