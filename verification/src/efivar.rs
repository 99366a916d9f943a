//! Firmware variables: a name within a vendor's namespace, the attributes
//! under which the firmware stores the variable, and its payload.

use crate::guid::{hyphenated, uuid_text_value, Guid};
use crate::wire::{read_u32_le, u32_from_le};
use vstd::prelude::*;
use vstd::string::StrSliceExecFns;

verus! {

/// The bytes of the namespace of the variables that the firmware itself
/// defines, `8be4df61-93ca-11d2-aa0d-00e098032b8c`.
pub const EFI_GLOBAL_VENDOR: [u8; 16] = [
    0x8b, 0xe4, 0xdf, 0x61, 0x93, 0xca, 0x11, 0xd2,
    0xaa, 0x0d, 0x00, 0xe0, 0x98, 0x03, 0x2b, 0x8c,
];

/// The name of a firmware variable as a mathematical value.
pub struct VariableNameView {
    pub key: Seq<char>,
    pub vendor: Seq<u8>,
}

/// The name of a firmware variable: a key within the namespace of a vendor.
#[derive(Clone, Debug, PartialEq, Eq, Hash)]
pub struct VariableName {
    key: String,
    vendor: Guid,
}

impl View for VariableName {
    type V = VariableNameView;

    closed spec fn view(&self) -> VariableNameView {
        VariableNameView { key: self.key@, vendor: self.vendor@ }
    }
}

/// Why a text is not the name of a variable.
#[derive(Debug)]
pub enum VariableNameFromStrError {
    /// The text holds no hyphen between a key and a vendor.
    InvalidFormat,
    /// What follows the first hyphen is not the text form of an identifier.
    UuidError(uuid::Error),
}

/// Whether the character at `i` is the first hyphen of a text.
pub open spec fn is_first_hyphen(s: Seq<char>, i: int) -> bool {
    &&& 0 <= i < s.len()
    &&& s[i] == '-'
    &&& forall|j: int| 0 <= j < i ==> s[j] != '-'
}

/// What stands before and what stands after the first hyphen of a text.
pub open spec fn split_at_hyphen(s: Seq<char>) -> Option<(Seq<char>, Seq<char>)> {
    if exists|i: int| is_first_hyphen(s, i) {
        let i = choose|i: int| is_first_hyphen(s, i);
        Some((s.take(i), s.skip(i + 1)))
    } else {
        None
    }
}

/// The text form of a name: the key, a hyphen, and the vendor in canonical
/// lower-case form.
pub open spec fn name_text(n: VariableNameView) -> Seq<char> {
    n.key + seq!['-'] + hyphenated(n.vendor)
}

impl VariableName {
    /// The name with the given key and vendor.
    pub fn new(key: String, vendor: Guid) -> (n: Self)
        ensures
            n@ == (VariableNameView { key: key@, vendor: vendor@ }),
    {
        Self { key, vendor }
    }

    /// The name with the given key in the namespace of the firmware's own
    /// variables.
    pub fn global_vendor_new(key: String) -> (n: Self)
        ensures
            n@ == (VariableNameView { key: key@, vendor: EFI_GLOBAL_VENDOR@ }),
    {
        Self::new(key, Guid::from_bytes(EFI_GLOBAL_VENDOR))
    }

    /// The key.
    pub fn key(&self) -> (key: &str)
        ensures
            key@ == self@.key,
    {
        self.key.as_str()
    }

    /// The vendor.
    pub fn vendor(&self) -> (vendor: &Guid)
        ensures
            vendor@ == self@.vendor,
    {
        &self.vendor
    }

    /// Reads a name from its text form: the key is what stands before the
    /// first hyphen, the vendor what stands after it.
    pub fn from_str(s: &str) -> (r: Result<Self, VariableNameFromStrError>)
        ensures
            match r {
                Ok(n) => name_of_text(s@) == Some(n@),
                Err(VariableNameFromStrError::InvalidFormat) => split_at_hyphen(s@) is None,
                Err(VariableNameFromStrError::UuidError(_)) => split_at_hyphen(s@) matches Some(
                    (_, vendor),
                ) && uuid_text_value(vendor) is None,
            },
    {
        let len = s.unicode_len();
        let mut i: usize = 0;
        while i < len && s.get_char(i) != '-'
            invariant
                i <= len,
                len == s@.len(),
                forall|j: int| 0 <= j < i ==> s@[j] != '-',
            decreases len - i,
        {
            i = i + 1;
        }
        if i == len {
            return Err(VariableNameFromStrError::InvalidFormat);
        }
        assert(is_first_hyphen(s@, i as int));
        let key = s.substring_char(0, i);
        let vendor = s.substring_char(i + 1, len);
        match Guid::parse_str(vendor) {
            Ok(vendor) => Ok(VariableName { key: key.to_owned(), vendor }),
            Err(e) => Err(VariableNameFromStrError::UuidError(e)),
        }
    }

    /// The text form of the name, under which the variable's content is kept.
    pub fn file_name(&self) -> (text: String)
        ensures
            text@ == name_text(self@),
    {
        let mut text = self.key.clone();
        text.append("-");
        let vendor = self.vendor.to_text();
        text.append(vendor.as_str());
        proof {
            reveal_strlit("-");
        }
        text
    }
}

impl std::str::FromStr for VariableName {
    type Err = VariableNameFromStrError;

    /// Reads a name from its text form, as `VariableName::from_str` does.
    fn from_str(s: &str) -> (r: Result<Self, VariableNameFromStrError>)
        ensures
            match r {
                Ok(n) => name_of_text(s@) == Some(n@),
                Err(VariableNameFromStrError::InvalidFormat) => split_at_hyphen(s@) is None,
                Err(VariableNameFromStrError::UuidError(_)) => split_at_hyphen(s@) matches Some(
                    (_, vendor),
                ) && uuid_text_value(vendor) is None,
            },
    {
        VariableName::from_str(s)
    }
}

/// The name that a text stands for, if it stands for one.
pub open spec fn name_of_text(text: Seq<char>) -> Option<VariableNameView> {
    match split_at_hyphen(text) {
        None => None,
        Some((key, vendor)) => match uuid_text_value(vendor) {
            None => None,
            Some(vendor) => Some(VariableNameView { key, vendor }),
        },
    }
}

/// Reads the names of variables from their text forms, in order. One text
/// that is no name fails them all, with the failure of the first such text.
pub fn parse_variable_names(texts: &Vec<String>) -> (r: Result<
    Vec<VariableName>,
    VariableNameFromStrError,
>)
    ensures
        match r {
            Ok(names) => names.len() == texts.len() && forall|i: int|
                0 <= i < texts.len() ==> name_of_text(#[trigger] texts[i]@) == Some(names[i]@),
            Err(e) => exists|i: int|
                {
                    &&& 0 <= i < texts.len()
                    &&& forall|k: int| 0 <= k < i ==> name_of_text(#[trigger] texts[k]@) is Some
                    &&& name_of_text(#[trigger] texts[i]@) is None
                    &&& e is InvalidFormat <==> split_at_hyphen(texts[i]@) is None
                },
        },
{
    let mut names: Vec<VariableName> = Vec::new();
    let mut i: usize = 0;
    while i < texts.len()
        invariant
            i <= texts.len(),
            names.len() == i,
            forall|k: int| 0 <= k < i ==> name_of_text(#[trigger] texts[k]@) == Some(names[k]@),
        decreases texts.len() - i,
    {
        match VariableName::from_str(texts[i].as_str()) {
            Ok(name) => {
                names.push(name);
            },
            Err(e) => {
                return Err(e);
            },
        }
        i = i + 1;
    }
    Ok(names)
}

/// An attribute under which the firmware stores a variable.
#[derive(Clone, Copy, Debug, PartialEq, Eq, Structural)]
pub enum EFIVariableAttribute {
    NonVolatile,
    BootServiceAccess,
    RuntimeAccess,
    HardwareErrorRecord,
    AuthenticatedWriteAccess,
    TimeBasedAuthenticatedWriteAccess,
    AppendWrite,
}

/// The bits of the known attributes of a variable.
pub const VARIABLE_ATTRIBUTES_MASK: u32 = 0x0000_007F;

impl EFIVariableAttribute {
    /// The bit that stands for the attribute.
    pub open spec fn mask(self) -> u32 {
        match self {
            EFIVariableAttribute::NonVolatile => 0x0000_0001,
            EFIVariableAttribute::BootServiceAccess => 0x0000_0002,
            EFIVariableAttribute::RuntimeAccess => 0x0000_0004,
            EFIVariableAttribute::HardwareErrorRecord => 0x0000_0008,
            EFIVariableAttribute::AuthenticatedWriteAccess => 0x0000_0010,
            EFIVariableAttribute::TimeBasedAuthenticatedWriteAccess => 0x0000_0020,
            EFIVariableAttribute::AppendWrite => 0x0000_0040,
        }
    }

    /// The bit that stands for the attribute.
    pub fn bit(self) -> (b: u32)
        ensures
            b == self.mask(),
    {
        match self {
            EFIVariableAttribute::NonVolatile => 0x0000_0001,
            EFIVariableAttribute::BootServiceAccess => 0x0000_0002,
            EFIVariableAttribute::RuntimeAccess => 0x0000_0004,
            EFIVariableAttribute::HardwareErrorRecord => 0x0000_0008,
            EFIVariableAttribute::AuthenticatedWriteAccess => 0x0000_0010,
            EFIVariableAttribute::TimeBasedAuthenticatedWriteAccess => 0x0000_0020,
            EFIVariableAttribute::AppendWrite => 0x0000_0040,
        }
    }
}

/// The set of attributes under which the firmware stores a variable.
#[derive(Clone, Copy, Debug, PartialEq, Eq, Structural)]
pub struct EFIVariableAttributes {
    bits: u32,
}

impl View for EFIVariableAttributes {
    type V = u32;

    closed spec fn view(&self) -> u32 {
        self.bits
    }
}

impl EFIVariableAttributes {
    /// Whether no bit is set but those of known attributes.
    #[verifier::type_invariant]
    pub open spec fn wf(self) -> bool {
        self@ & !VARIABLE_ATTRIBUTES_MASK == 0
    }

    /// Whether the set holds `attribute`.
    pub open spec fn has(self, attribute: EFIVariableAttribute) -> bool {
        self@ & attribute.mask() != 0
    }

    /// The set of the known attributes whose bits are set in `bits`; other
    /// bits are dropped.
    pub fn from_bits_truncate(bits: u32) -> (a: Self)
        ensures
            a@ == bits & VARIABLE_ATTRIBUTES_MASK,
            a.wf(),
    {
        assert((bits & VARIABLE_ATTRIBUTES_MASK) & !VARIABLE_ATTRIBUTES_MASK == 0) by (bit_vector);
        EFIVariableAttributes { bits: bits & VARIABLE_ATTRIBUTES_MASK }
    }

    /// The bits of the attributes in the set.
    pub fn bits(&self) -> (b: u32)
        ensures
            b == self@,
            self.wf(),
    {
        proof {
            use_type_invariant(self);
        }
        self.bits
    }

    /// Whether the set holds `attribute`.
    pub fn contains(&self, attribute: EFIVariableAttribute) -> (b: bool)
        ensures
            b == self.has(attribute),
    {
        self.bits & attribute.bit() != 0
    }
}

/// A firmware variable as a mathematical value.
pub struct EFIVariableView {
    pub name: VariableNameView,
    pub attributes: u32,
    pub data: Seq<u8>,
}

/// A firmware variable: its name, its attributes and its payload.
#[derive(Clone, Debug)]
pub struct EFIVariable {
    name: VariableName,
    attributes: EFIVariableAttributes,
    data: Vec<u8>,
}

impl View for EFIVariable {
    type V = EFIVariableView;

    closed spec fn view(&self) -> EFIVariableView {
        EFIVariableView { name: self.name@, attributes: self.attributes@, data: self.data@ }
    }
}

impl EFIVariable {
    /// The variable with the given name, attributes and payload.
    pub fn new(name: VariableName, attributes: EFIVariableAttributes, data: Vec<u8>) -> (v: Self)
        ensures
            v@ == (EFIVariableView { name: name@, attributes: attributes@, data: data@ }),
    {
        Self { name, attributes, data }
    }

    /// The variable whose stored content is `content`: four bytes of
    /// attributes, little-endian, and then the payload. `None` where the
    /// content has fewer than four bytes.
    pub fn from_content(name: VariableName, content: &[u8]) -> (r: Option<Self>)
        ensures
            match r {
                Some(v) => content.len() >= 4 && v@ == (EFIVariableView {
                    name: name@,
                    attributes: u32_from_le(content@.subrange(0, 4)) & VARIABLE_ATTRIBUTES_MASK,
                    data: content@.skip(4),
                }),
                None => content.len() < 4,
            },
    {
        if content.len() < 4 {
            return None;
        }
        let attributes = EFIVariableAttributes::from_bits_truncate(read_u32_le(&content[0..4]));
        let mut data: Vec<u8> = Vec::new();
        crate::utf16::append_bytes(&mut data, &content[4..content.len()]);
        Some(Self { name, attributes, data })
    }

    /// The name.
    pub fn name(&self) -> (name: &VariableName)
        ensures
            name@ == self@.name,
    {
        &self.name
    }

    /// The attributes.
    pub fn attributes(&self) -> (attributes: EFIVariableAttributes)
        ensures
            attributes@ == self@.attributes,
    {
        self.attributes
    }

    /// The payload.
    pub fn data(&self) -> (data: &[u8])
        ensures
            data@ == self@.data,
    {
        self.data.as_slice()
    }
}

} // verus!
