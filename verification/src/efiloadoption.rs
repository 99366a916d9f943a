//! Load options: the payload of a `BootNNNN` variable, which describes one
//! entry of the boot menu.
//!
//! A load option is laid out as four bytes of attributes and two bytes of
//! device path length (both little-endian), the description as zero-terminated
//! UTF-16, the device path in as many bytes as the length says, and optional
//! data up to the end.

use crate::efidevicepath::{
    decode_list, device_path_list_size, encode_list, list_view, list_wf, nodes_fit,
    parse_device_path_list, write_device_path_list, DevicePathNode, DevicePathProtocolParseError,
    EFIDevicePathProtocol, EncodeError, END_ENTIRE_DEVICE_PATH,
};
use crate::efidevicepath_laws::{lemma_list_read_written, lemma_list_written_read};
use crate::utf16::{
    append_bytes, lemma_text_read_written, lemma_text_written_read, no_nul, read_text,
    text_from_bytes, text_to_bytes, write_text, TextError,
};
use crate::wire::{
    lemma_u16_le_roundtrip, lemma_u32_le_roundtrip, read_u16_le, read_u32_le, u16_from_le,
    u16_le_bytes, u16_to_le, u32_from_le, u32_le_bytes, u32_to_le,
};
use vstd::prelude::*;

verus! {

/// The bits of a load option's attributes that hold its category.
pub const CATEGORY_MASK: u32 = 0x0000_1F00;

/// The bits of a load option's attributes that are known flags.
pub const FLAGS_MASK: u32 = 0x0000_000B;

/// A flag of a load option.
#[derive(Clone, Copy, Debug, PartialEq, Eq, Structural)]
pub enum LoadOptionAttributeFlag {
    Active,
    ForceReconnect,
    Hidden,
}

impl LoadOptionAttributeFlag {
    /// The bit that stands for the flag.
    pub open spec fn mask(self) -> u32 {
        match self {
            LoadOptionAttributeFlag::Active => 0x0000_0001,
            LoadOptionAttributeFlag::ForceReconnect => 0x0000_0002,
            LoadOptionAttributeFlag::Hidden => 0x0000_0008,
        }
    }

    /// The bit that stands for the flag.
    pub fn bit(self) -> (b: u32)
        ensures
            b == self.mask(),
    {
        match self {
            LoadOptionAttributeFlag::Active => 0x0000_0001,
            LoadOptionAttributeFlag::ForceReconnect => 0x0000_0002,
            LoadOptionAttributeFlag::Hidden => 0x0000_0008,
        }
    }
}

/// A set of flags of a load option.
#[derive(Clone, Copy, Debug, PartialEq, Eq, Structural)]
pub struct LoadOptionAttributeFlags {
    bits: u32,
}

impl View for LoadOptionAttributeFlags {
    type V = u32;

    closed spec fn view(&self) -> u32 {
        self.bits
    }
}

impl LoadOptionAttributeFlags {
    /// Whether no bit is set but those of known flags.
    #[verifier::type_invariant]
    pub open spec fn wf(self) -> bool {
        self@ & !FLAGS_MASK == 0
    }

    /// Whether the set holds `flag`.
    pub open spec fn has(self, flag: LoadOptionAttributeFlag) -> bool {
        self@ & flag.mask() != 0
    }

    /// The set without any flag.
    pub fn empty() -> (f: Self)
        ensures
            f@ == 0,
            f.wf(),
    {
        assert(0u32 & !FLAGS_MASK == 0) by (bit_vector);
        LoadOptionAttributeFlags { bits: 0 }
    }

    /// The set of the known flags whose bits are set in `bits`; other bits
    /// are dropped.
    pub fn from_bits_truncate(bits: u32) -> (f: Self)
        ensures
            f@ == bits & FLAGS_MASK,
            f.wf(),
    {
        assert((bits & FLAGS_MASK) & !FLAGS_MASK == 0) by (bit_vector);
        LoadOptionAttributeFlags { bits: bits & FLAGS_MASK }
    }

    /// The set that holds `flag` alone.
    pub fn from_flag(flag: LoadOptionAttributeFlag) -> (f: Self)
        ensures
            f@ == flag.mask(),
            f.wf(),
    {
        let bits: u32 = flag.bit();
        assert(bits == 1 || bits == 2 || bits == 8 ==> bits & !FLAGS_MASK == 0) by (bit_vector);
        LoadOptionAttributeFlags { bits }
    }

    /// The bits of the flags in the set.
    pub fn bits(&self) -> (b: u32)
        ensures
            b == self@,
            self.wf(),
    {
        proof {
            use_type_invariant(self);
        }
        self.bits
    }

    /// Whether the set holds `flag`.
    pub fn contains(&self, flag: LoadOptionAttributeFlag) -> (b: bool)
        ensures
            b == self.has(flag),
    {
        self.bits & flag.bit() != 0
    }
}

/// The category of a load option: the bits of its attributes under
/// `CATEGORY_MASK`.
#[derive(Clone, Copy, Debug, PartialEq, Eq, Structural)]
pub struct LoadOptionCategory {
    bits: u32,
}

impl View for LoadOptionCategory {
    type V = u32;

    closed spec fn view(&self) -> u32 {
        self.bits
    }
}

impl LoadOptionCategory {
    /// Whether no bit is set outside the category mask.
    #[verifier::type_invariant]
    pub open spec fn wf(self) -> bool {
        self@ & !CATEGORY_MASK == 0
    }

    /// The category of the entries that the boot manager may start by itself.
    pub fn boot() -> (c: Self)
        ensures
            c@ == 0x0000_0000,
            c.wf(),
    {
        assert(0x0000_0000u32 & !CATEGORY_MASK == 0) by (bit_vector);
        LoadOptionCategory { bits: 0x0000_0000 }
    }

    /// The category of the applications that only a user starts.
    pub fn app() -> (c: Self)
        ensures
            c@ == 0x0000_0100,
            c.wf(),
    {
        assert(0x0000_0100u32 & !CATEGORY_MASK == 0) by (bit_vector);
        LoadOptionCategory { bits: 0x0000_0100 }
    }

    /// Whether this is the category of boot entries.
    pub fn is_boot(&self) -> (b: bool)
        ensures
            b == (self@ == 0x0000_0000),
    {
        self.bits == 0x0000_0000
    }

    /// Whether this is the category of applications.
    pub fn is_app(&self) -> (b: bool)
        ensures
            b == (self@ == 0x0000_0100),
    {
        self.bits == 0x0000_0100
    }

    /// Whether the category lies in the range that is set aside.
    pub fn is_reserved(&self) -> (b: bool)
        ensures
            b == (0x0000_0200 <= self@ < 0x0000_2000),
    {
        0x0000_0200 <= self.bits && self.bits < 0x0000_2000
    }

    /// The category as bits of a load option's attributes.
    pub fn bits(&self) -> (b: u32)
        ensures
            b == self@,
            self.wf(),
    {
        proof {
            use_type_invariant(self);
        }
        self.bits
    }
}

/// The attributes of a load option: flags and a category in one 32-bit value.
#[derive(Clone, Copy, Debug, PartialEq, Eq, Structural)]
pub struct LoadOptionAttributes {
    pub bits: u32,
}

impl View for LoadOptionAttributes {
    type V = u32;

    open spec fn view(&self) -> u32 {
        self.bits
    }
}

impl LoadOptionAttributes {
    /// The category that the attributes hold.
    pub open spec fn category_of(self) -> u32 {
        self@ & CATEGORY_MASK
    }

    /// The known flags that the attributes hold.
    pub open spec fn flags_of(self) -> u32 {
        self@ & FLAGS_MASK
    }

    /// The attributes with the flags replaced and the category kept.
    pub open spec fn with_flags(self, flags: LoadOptionAttributeFlags) -> Self {
        LoadOptionAttributes { bits: flags@ | (self@ & CATEGORY_MASK) }
    }

    /// The attributes with the category replaced and every other bit kept.
    pub open spec fn with_category(self, category: LoadOptionCategory) -> Self {
        LoadOptionAttributes { bits: category@ | (self@ & !CATEGORY_MASK) }
    }

    /// The attributes with the given flags and category.
    pub fn new(flags: LoadOptionAttributeFlags, category: LoadOptionCategory) -> (a: Self)
        ensures
            a@ == flags@ | category@,
            a.flags_of() == flags@,
            a.category_of() == category@,
    {
        let f: u32 = flags.bits();
        let c: u32 = category.bits();
        assert(f & !FLAGS_MASK == 0 && c & !CATEGORY_MASK == 0 ==> (f | c) & FLAGS_MASK == f && (f
            | c) & CATEGORY_MASK == c) by (bit_vector);
        LoadOptionAttributes { bits: f | c }
    }

    /// The attributes as the 32-bit value that a load option stores.
    pub fn bits(&self) -> (b: u32)
        ensures
            b == self@,
    {
        self.bits
    }

    /// The bits of the category.
    pub fn category_bits(&self) -> (b: u32)
        ensures
            b == self.category_of(),
    {
        self.bits & CATEGORY_MASK
    }

    /// The category.
    pub fn category(&self) -> (c: LoadOptionCategory)
        ensures
            c@ == self.category_of(),
            c.wf(),
    {
        let bits: u32 = self.bits;
        assert((bits & CATEGORY_MASK) & !CATEGORY_MASK == 0) by (bit_vector);
        LoadOptionCategory { bits: bits & CATEGORY_MASK }
    }

    /// The bits outside the category, known flags or not.
    pub fn flag_bits(&self) -> (b: u32)
        ensures
            b == self@ & !CATEGORY_MASK,
    {
        let bits: u32 = self.bits;
        assert(bits & (CATEGORY_MASK ^ u32::MAX) == bits & !CATEGORY_MASK) by (bit_vector);
        bits & (CATEGORY_MASK ^ u32::MAX)
    }

    /// The known flags that are set.
    pub fn flags(&self) -> (f: LoadOptionAttributeFlags)
        ensures
            f@ == self.flags_of(),
            f.wf(),
    {
        let bits: u32 = self.bits;
        assert((bits & !CATEGORY_MASK) & FLAGS_MASK == bits & FLAGS_MASK) by (bit_vector);
        LoadOptionAttributeFlags::from_bits_truncate(self.flag_bits())
    }

    /// Sets the flags to `flags` and keeps the category.
    pub fn set_flags(&mut self, flags: LoadOptionAttributeFlags)
        ensures
            *final(self) == old(self).with_flags(flags),
            final(self).flags_of() == flags@,
            final(self).category_of() == old(self).category_of(),
    {
        let f: u32 = flags.bits();
        let c: u32 = self.category_bits();
        let kept = self.category();
        proof {
            lemma_attribute_masking(*self, flags, kept);
        }
        self.bits = f | c;
    }

    /// Sets the category to `category` and keeps every other bit.
    pub fn set_category(&mut self, category: LoadOptionCategory)
        ensures
            *final(self) == old(self).with_category(category),
            final(self).category_of() == category@,
            final(self).flags_of() == old(self).flags_of(),
    {
        let c: u32 = category.bits();
        let f: u32 = self.flag_bits();
        let kept = self.flags();
        proof {
            lemma_attribute_masking(*self, kept, category);
        }
        self.bits = c | f;
    }

}

impl From<u32> for LoadOptionAttributes {
    fn from(value: u32) -> (a: Self) {
        LoadOptionAttributes { bits: value }
    }
}

impl vstd::std_specs::convert::FromSpecImpl<u32> for LoadOptionAttributes {
    open spec fn obeys_from_spec() -> bool {
        true
    }

    open spec fn from_spec(value: u32) -> Self {
        LoadOptionAttributes { bits: value }
    }
}

/// Setting the flags leaves the category as it was and setting the category
/// leaves the flags as they were, and each is read back as it was set,
/// whichever was set last.
pub proof fn lemma_attribute_masking(
    a: LoadOptionAttributes,
    flags: LoadOptionAttributeFlags,
    category: LoadOptionCategory,
)
    requires
        flags.wf(),
        category.wf(),
    ensures
        a.with_flags(flags).flags_of() == flags@,
        a.with_flags(flags).category_of() == a.category_of(),
        a.with_category(category).category_of() == category@,
        a.with_category(category).flags_of() == a.flags_of(),
        a.with_category(category).with_flags(flags).flags_of() == flags@,
        a.with_category(category).with_flags(flags).category_of() == category@,
        a.with_flags(flags).with_category(category).flags_of() == flags@,
        a.with_flags(flags).with_category(category).category_of() == category@,
{
    let x: u32 = a@;
    let f: u32 = flags@;
    let c: u32 = category@;
    assert(f & !FLAGS_MASK == 0 && c & !CATEGORY_MASK == 0 ==> {
        &&& (f | (x & CATEGORY_MASK)) & FLAGS_MASK == f
        &&& (f | (x & CATEGORY_MASK)) & CATEGORY_MASK == x & CATEGORY_MASK
        &&& (c | (x & !CATEGORY_MASK)) & CATEGORY_MASK == c
        &&& (c | (x & !CATEGORY_MASK)) & FLAGS_MASK == x & FLAGS_MASK
    }) by (bit_vector);
    let y: u32 = a.with_category(category)@;
    assert(c & !CATEGORY_MASK == 0 && f & !FLAGS_MASK == 0 && y & CATEGORY_MASK == c ==> {
        &&& (f | (y & CATEGORY_MASK)) & FLAGS_MASK == f
        &&& (f | (y & CATEGORY_MASK)) & CATEGORY_MASK == c
    }) by (bit_vector);
    let z: u32 = a.with_flags(flags)@;
    assert(c & !CATEGORY_MASK == 0 && f & !FLAGS_MASK == 0 && z & FLAGS_MASK == f ==> {
        &&& (c | (z & !CATEGORY_MASK)) & CATEGORY_MASK == c
        &&& (c | (z & !CATEGORY_MASK)) & FLAGS_MASK == f
    }) by (bit_vector);
}

/// Why bytes are not a load option.
#[derive(Clone, Copy, Debug, PartialEq, Eq, Structural)]
pub enum LoadOptionParseError {
    /// The bytes end before the load option does.
    UnexpectedEof,
    /// The description is not well-formed UTF-16.
    FromUtf16Error,
    /// A node of the device path cannot be read.
    DevicePathProtocolParseError(DevicePathProtocolParseError),
    /// The device path ends before the bytes that the length field sets
    /// aside for it do.
    DevicePathListLength,
}

/// A load option as a mathematical value.
pub struct LoadOption {
    pub attributes: u32,
    pub device_paths: Seq<DevicePathNode>,
    pub description: Seq<char>,
    pub optional_data: Seq<u8>,
}

impl LoadOption {
    /// Whether the load option can be written and read back: the description
    /// holds no U+0000, the device path is well formed, and its length fits
    /// the two bytes of the length field.
    pub open spec fn wf(self) -> bool {
        &&& no_nul(self.description)
        &&& list_wf(self.device_paths)
        &&& encode_list(self.device_paths).len() <= 0xFFFF
    }
}

/// The bytes of a load option.
pub open spec fn encode_load_option(v: LoadOption) -> Seq<u8> {
    u32_to_le(v.attributes) + u16_to_le(encode_list(v.device_paths).len() as u16) + text_to_bytes(
        v.description,
    ) + encode_list(v.device_paths) + v.optional_data
}

/// The load option that `b` holds.
pub open spec fn decode_load_option(b: Seq<u8>) -> Result<LoadOption, LoadOptionParseError> {
    if b.len() < 6 {
        Err(LoadOptionParseError::UnexpectedEof)
    } else {
        match text_from_bytes(b.skip(6)) {
            Err(TextError::Unterminated) => Err(LoadOptionParseError::UnexpectedEof),
            Err(TextError::InvalidUtf16) => Err(LoadOptionParseError::FromUtf16Error),
            Ok((description, used)) => {
                let start = 6 + used;
                let end = start + u16_from_le(b.subrange(4, 6));
                if b.len() < end {
                    Err(LoadOptionParseError::UnexpectedEof)
                } else {
                    match decode_list(b.subrange(start, end)) {
                        Err(e) => Err(LoadOptionParseError::DevicePathProtocolParseError(e)),
                        Ok((device_paths, read)) => if start + read != end {
                            Err(LoadOptionParseError::DevicePathListLength)
                        } else {
                            Ok(
                                LoadOption {
                                    attributes: u32_from_le(b.subrange(0, 4)),
                                    device_paths,
                                    description,
                                    optional_data: b.skip(end),
                                },
                            )
                        },
                    }
                }
            },
        }
    }
}

/// One entry of the boot menu, as a `BootNNNN` variable holds it.
#[derive(Clone, Debug, PartialEq, Eq)]
pub struct EFILoadOption {
    attributes: LoadOptionAttributes,
    file_path_list: Vec<EFIDevicePathProtocol>,
    description: String,
    optional_data: Vec<u8>,
}

impl View for EFILoadOption {
    type V = LoadOption;

    closed spec fn view(&self) -> LoadOption {
        LoadOption {
            attributes: self.attributes@,
            device_paths: list_view(self.file_path_list@),
            description: self.description@,
            optional_data: self.optional_data@,
        }
    }
}

impl EFILoadOption {
    /// The load option with the given parts.
    pub fn new(
        attributes: LoadOptionAttributes,
        file_path_list: Vec<EFIDevicePathProtocol>,
        description: String,
        optional_data: Vec<u8>,
    ) -> (v: Self)
        ensures
            v@ == (LoadOption {
                attributes: attributes@,
                device_paths: list_view(file_path_list@),
                description: description@,
                optional_data: optional_data@,
            }),
    {
        EFILoadOption { attributes, file_path_list, description, optional_data }
    }

    /// Reads the load option that `buf` holds. Whatever follows the device
    /// path is the optional data.
    pub fn parse(buf: &[u8]) -> (r: Result<EFILoadOption, LoadOptionParseError>)
        ensures
            match r {
                Ok(v) => decode_load_option(buf@) == Ok::<LoadOption, LoadOptionParseError>(v@),
                Err(e) => decode_load_option(buf@) == Err::<LoadOption, LoadOptionParseError>(e),
            },
    {
        if buf.len() < 6 {
            return Err(LoadOptionParseError::UnexpectedEof);
        }
        let attributes = LoadOptionAttributes::from(read_u32_le(&buf[0..4]));
        let file_path_list_length = read_u16_le(&buf[4..6]) as usize;
        let (description, used) = match read_text(&buf[6..buf.len()]) {
            Ok(text) => text,
            Err(TextError::Unterminated) => {
                return Err(LoadOptionParseError::UnexpectedEof);
            },
            Err(TextError::InvalidUtf16) => {
                return Err(LoadOptionParseError::FromUtf16Error);
            },
        };
        proof {
            lemma_text_written_read(buf@.skip(6));
        }
        let start = 6 + used;
        if buf.len() - start < file_path_list_length {
            return Err(LoadOptionParseError::UnexpectedEof);
        }
        let end = start + file_path_list_length;
        let (file_path_list, read) = match parse_device_path_list(&buf[start..end]) {
            Ok(list) => list,
            Err(e) => {
                return Err(LoadOptionParseError::DevicePathProtocolParseError(e));
            },
        };
        if read != file_path_list_length {
            return Err(LoadOptionParseError::DevicePathListLength);
        }
        let mut optional_data: Vec<u8> = Vec::new();
        append_bytes(&mut optional_data, &buf[end..buf.len()]);
        Ok(EFILoadOption { attributes, description, file_path_list, optional_data })
    }

    /// Appends the bytes of the load option to `out`, with the length of the
    /// device path computed from its nodes. Fails, and leaves `out` as it was,
    /// where a node or the whole device path is too large for its size field.
    pub fn write(&self, out: &mut Vec<u8>) -> (r: Result<(), EncodeError>)
        ensures
            match r {
                Ok(()) => nodes_fit(self@.device_paths) && encode_list(self@.device_paths).len()
                    <= 0xFFFF && final(out)@ == old(out)@ + encode_load_option(self@),
                Err(EncodeError::NodeTooLarge) => !nodes_fit(self@.device_paths) && final(out)@
                    == old(out)@,
                Err(EncodeError::ListTooLarge) => nodes_fit(self@.device_paths) && encode_list(
                    self@.device_paths,
                ).len() > 0xFFFF && final(out)@ == old(out)@,
            },
    {
        let file_path_list_length = match device_path_list_size(&self.file_path_list) {
            Ok(n) => n,
            Err(e) => {
                return Err(e);
            },
        };
        let attributes = u32_le_bytes(self.attributes.bits());
        append_bytes(out, attributes.as_slice());
        let length = u16_le_bytes(file_path_list_length);
        append_bytes(out, length.as_slice());
        write_text(self.description.as_str(), out);
        let _ = write_device_path_list(&self.file_path_list, out);
        append_bytes(out, self.optional_data.as_slice());
        Ok(())
    }

    /// The description.
    pub fn description(&self) -> (s: &str)
        ensures
            s@ == self@.description,
    {
        self.description.as_str()
    }

    /// The attributes.
    pub fn attributes(&self) -> (a: &LoadOptionAttributes)
        ensures
            a@ == self@.attributes,
    {
        &self.attributes
    }

    /// The nodes of the device path, without the node that ends it.
    pub fn file_path_list(&self) -> (l: &Vec<EFIDevicePathProtocol>)
        ensures
            list_view(l@) == self@.device_paths,
    {
        &self.file_path_list
    }

    /// The bytes that follow the device path.
    pub fn optional_data(&self) -> (d: &Vec<u8>)
        ensures
            d@ == self@.optional_data,
    {
        &self.optional_data
    }
}

/// A well-formed load option is read back from the bytes it was written to.
pub proof fn lemma_load_option_read_written(v: LoadOption)
    requires
        v.wf(),
    ensures
        decode_load_option(encode_load_option(v)) == Ok::<LoadOption, LoadOptionParseError>(v),
{
    let b = encode_load_option(v);
    let text = text_to_bytes(v.description);
    let list = encode_list(v.device_paths);
    let after = list + v.optional_data;
    lemma_u32_le_roundtrip(v.attributes, Seq::empty());
    lemma_u16_le_roundtrip(list.len() as u16, Seq::empty());
    assert(b.skip(6) =~= text + after);
    lemma_text_read_written(v.description, after);
    let start = 6 + text.len();
    let end = start + list.len();
    assert(b.subrange(start as int, end as int) =~= list);
    lemma_list_read_written(v.device_paths, Seq::empty());
    assert(b.skip(end as int) =~= v.optional_data);
}

/// Bytes that a load option was read from are the bytes that the load option
/// is written to, where the node that ends the device path ends a whole
/// device path; and the load option is well formed.
pub proof fn lemma_load_option_written_read(b: Seq<u8>)
    requires
        decode_load_option(b) is Ok,
    ensures
        ({
            let v = decode_load_option(b).unwrap();
            let end = 6 + text_to_bytes(v.description).len() + u16_from_le(b.subrange(4, 6));
            &&& v.wf()
            &&& 10 <= end <= b.len()
            &&& b[end - 3] == END_ENTIRE_DEVICE_PATH ==> encode_load_option(v) == b
        }),
{
    let (_, used) = text_from_bytes(b.skip(6)).unwrap();
    let start = 6 + used;
    let end = start + u16_from_le(b.subrange(4, 6));
    lemma_text_written_read(b.skip(6));
    lemma_list_written_read(b.subrange(start, end));
    lemma_u32_le_roundtrip(0, b.subrange(0, 4));
    lemma_u16_le_roundtrip(0, b.subrange(4, 6));
}

} // verus!
