//! The boot menu: the `BootNNNN` variables, each one entry, in the order that
//! the `BootOrder` variable gives.

use crate::backend::EFIVars;
use crate::efiloadoption::{
    decode_load_option, EFILoadOption, LoadOption, LoadOptionAttributeFlag, LoadOptionParseError,
};
use crate::efivar::{EFIVariable, VariableName};
use crate::wire::{read_u16_le, u16s_from_le};
use std::collections::HashMap;
use vstd::prelude::*;
use vstd::string::StrSliceExecFns;

verus! {

broadcast use vstd::std_specs::hash::group_hash_axioms;

/// The value of an upper-case hexadecimal digit.
pub open spec fn hex_digit_value(c: char) -> Option<int> {
    if '0' <= c <= '9' {
        Some(c as u32 - '0' as u32)
    } else if 'A' <= c <= 'F' {
        Some(c as u32 - 'A' as u32 + 10)
    } else {
        None
    }
}

/// The number of the boot entry that a variable with the given key holds:
/// the key is `Boot` and four upper-case hexadecimal digits, which are the
/// number. `None` for every other key.
pub open spec fn boot_key_id(key: Seq<char>) -> Option<u16> {
    if key.len() == 8 && key[0] == 'B' && key[1] == 'o' && key[2] == 'o' && key[3] == 't'
        && hex_digit_value(key[4]) is Some && hex_digit_value(key[5]) is Some && hex_digit_value(
        key[6],
    ) is Some && hex_digit_value(key[7]) is Some {
        Some(
            (hex_digit_value(key[4]).unwrap() * 0x1000 + hex_digit_value(key[5]).unwrap() * 0x100
                + hex_digit_value(key[6]).unwrap() * 0x10 + hex_digit_value(key[7]).unwrap()) as u16,
        )
    } else {
        None
    }
}

/// The value of an upper-case hexadecimal digit.
fn hex_digit(c: char) -> (r: Option<u16>)
    ensures
        match r {
            Some(v) => hex_digit_value(c) == Some(v as int) && v < 16,
            None => hex_digit_value(c) is None,
        },
{
    if '0' <= c && c <= '9' {
        Some((c as u32 - '0' as u32) as u16)
    } else if 'A' <= c && c <= 'F' {
        Some((c as u32 - 'A' as u32 + 10) as u16)
    } else {
        None
    }
}

/// The number of the boot entry that a variable with the given key holds, if
/// the key is that of a boot entry.
pub fn boot_entry_id(key: &str) -> (r: Option<u16>)
    ensures
        r == boot_key_id(key@),
{
    if key.unicode_len() != 8 {
        return None;
    }
    if key.get_char(0) != 'B' || key.get_char(1) != 'o' || key.get_char(2) != 'o' || key.get_char(
        3,
    ) != 't' {
        return None;
    }
    let a: u16 = match hex_digit(key.get_char(4)) {
        Some(v) => v,
        None => {
            return None;
        },
    };
    let b: u16 = match hex_digit(key.get_char(5)) {
        Some(v) => v,
        None => {
            return None;
        },
    };
    let c: u16 = match hex_digit(key.get_char(6)) {
        Some(v) => v,
        None => {
            return None;
        },
    };
    let d: u16 = match hex_digit(key.get_char(7)) {
        Some(v) => v,
        None => {
            return None;
        },
    };
    Some(a * 0x1000 + b * 0x100 + c * 0x10 + d)
}

/// Why the variable of a boot entry holds no load option.
#[derive(Clone, Copy, Debug, PartialEq, Eq, Structural)]
pub struct BootEntryParseError {
    pub id: u16,
    pub source: LoadOptionParseError,
}

impl BootEntryParseError {
    /// The failure `source` for the boot entry with the number `id`.
    pub fn new(id: u16, source: LoadOptionParseError) -> (e: Self)
        ensures
            e == (BootEntryParseError { id, source }),
    {
        Self { id, source }
    }
}

/// A boot entry as a mathematical value.
pub struct BootEntryView {
    pub id: u16,
    pub load_option: LoadOption,
}

/// One entry of the boot menu.
#[derive(Clone, Debug)]
pub struct BootEntry {
    id: u16,
    load_option: EFILoadOption,
}

impl View for BootEntry {
    type V = BootEntryView;

    closed spec fn view(&self) -> BootEntryView {
        BootEntryView { id: self.id, load_option: self.load_option@ }
    }
}

/// Whether the attributes of a load option say that the entry is active.
pub open spec fn is_active(attributes: u32) -> bool {
    attributes & 0x0000_0001 != 0
}

impl BootEntry {
    /// The entry with the given number and load option.
    pub fn new(id: u16, load_option: EFILoadOption) -> (e: Self)
        ensures
            e@ == (BootEntryView { id, load_option: load_option@ }),
    {
        Self { id, load_option }
    }

    /// Reads the entry with the number `id` from the payload of its variable.
    pub fn parse(id: u16, variable: &EFIVariable) -> (r: Result<BootEntry, BootEntryParseError>)
        ensures
            match r {
                Ok(e) => decode_load_option(variable@.data) == Ok::<LoadOption, LoadOptionParseError>(
                    e@.load_option,
                ) && e@.id == id,
                Err(e) => decode_load_option(variable@.data) == Err::<
                    LoadOption,
                    LoadOptionParseError,
                >(e.source) && e.id == id,
            },
    {
        match EFILoadOption::parse(variable.data()) {
            Ok(load_option) => Ok(BootEntry { id, load_option }),
            Err(e) => Err(BootEntryParseError::new(id, e)),
        }
    }

    /// The number of the entry.
    pub fn id(&self) -> (id: u16)
        ensures
            id == self@.id,
    {
        self.id
    }

    /// The load option of the entry.
    pub fn load_option(&self) -> (v: &EFILoadOption)
        ensures
            v@ == self@.load_option,
    {
        &self.load_option
    }

    /// The description of the entry.
    pub fn description(&self) -> (s: &str)
        ensures
            s@ == self@.load_option.description,
    {
        self.load_option.description()
    }

    /// Whether the entry is active.
    pub fn is_active(&self) -> (b: bool)
        ensures
            b == is_active(self@.load_option.attributes),
    {
        let attributes = self.load_option.attributes();
        let bits: u32 = attributes.bits;
        assert(((bits & 0x0B) & 0x01 != 0) == (bits & 0x01 != 0)) by (bit_vector);
        attributes.flags().contains(LoadOptionAttributeFlag::Active)
    }
}

/// Why the payload of the `BootOrder` variable is no list of numbers.
#[derive(Clone, Copy, Debug, PartialEq, Eq, Structural)]
pub enum BootOrderParseError {
    /// The payload has an odd number of bytes.
    OddLength,
}

/// The numbers that the payload of the `BootOrder` variable holds: two bytes
/// each, little-endian. `None` for an odd number of bytes.
pub open spec fn decode_boot_order(b: Seq<u8>) -> Option<Seq<u16>> {
    if b.len() % 2 == 0 {
        Some(u16s_from_le(b))
    } else {
        None
    }
}

/// The order of the boot menu: the numbers of its entries.
#[derive(Clone, Debug, PartialEq, Eq)]
pub struct BootOrder {
    order: Vec<u16>,
}

impl View for BootOrder {
    type V = Seq<u16>;

    closed spec fn view(&self) -> Seq<u16> {
        self.order@
    }
}

impl BootOrder {
    /// The order that lists the given numbers.
    pub fn new(order: Vec<u16>) -> (o: Self)
        ensures
            o@ == order@,
    {
        Self { order }
    }

    /// Reads the order from the payload of the `BootOrder` variable.
    pub fn parse(payload: &[u8]) -> (r: Result<BootOrder, BootOrderParseError>)
        ensures
            match r {
                Ok(o) => decode_boot_order(payload@) == Some(o@),
                Err(_) => decode_boot_order(payload@) is None,
            },
    {
        if payload.len() % 2 != 0 {
            return Err(BootOrderParseError::OddLength);
        }
        let ghost all = u16s_from_le(payload@);
        let mut order: Vec<u16> = Vec::new();
        let mut pos: usize = 0;
        while pos < payload.len()
            invariant
                pos <= payload.len(),
                payload.len() % 2 == 0,
                pos == 2 * order.len(),
                all == u16s_from_le(payload@),
                order@ == all.take(order.len() as int),
            decreases payload.len() - pos,
        {
            let id = read_u16_le(&payload[pos..pos + 2]);
            order.push(id);
            pos = pos + 2;
        }
        Ok(BootOrder { order })
    }

    /// The numbers, first to last.
    pub fn iter(&self) -> (ids: &[u16])
        ensures
            ids@ == self@,
    {
        self.order.as_slice()
    }
}

/// The entries of a list by their numbers. Of two entries with one number the
/// later one stands.
pub open spec fn entries_by_id(entries: Seq<BootEntryView>) -> Map<u16, BootEntryView>
    decreases entries.len(),
{
    if entries.len() == 0 {
        Map::empty()
    } else {
        entries_by_id(entries.drop_last()).insert(entries.last().id, entries.last())
    }
}

/// The entries that a walk along the order meets: for each number of the
/// order that an entry has, that entry; a number that no entry has is passed
/// over.
pub open spec fn ordered_entries(order: Seq<u16>, entries: Map<u16, BootEntryView>) -> Seq<
    BootEntryView,
> {
    order.filter_map(
        |id: u16|
            if entries.contains_key(id) {
                Some(entries[id])
            } else {
                None
            },
    )
}

/// The boot menu as a mathematical value.
pub struct OrderedBootEntriesView {
    pub entries: Map<u16, BootEntryView>,
    pub order: Seq<u16>,
}

/// The boot menu: the entries by their numbers, and the order.
pub struct OrderedBootEntries {
    entries: HashMap<u16, BootEntry>,
    order: BootOrder,
}

impl View for OrderedBootEntries {
    type V = OrderedBootEntriesView;

    closed spec fn view(&self) -> OrderedBootEntriesView {
        OrderedBootEntriesView {
            entries: self.entries@.map_values(|e: BootEntry| e@),
            order: self.order@,
        }
    }
}

/// The entries of a list as mathematical values.
pub open spec fn entry_views(entries: Seq<BootEntry>) -> Seq<BootEntryView> {
    entries.map_values(|e: BootEntry| e@)
}

/// The entries behind a list of references as mathematical values.
pub open spec fn entry_ref_views(entries: Seq<&BootEntry>) -> Seq<BootEntryView> {
    entries.map_values(|e: &BootEntry| e@)
}

impl OrderedBootEntries {
    /// The boot menu of the given entries in the given order.
    pub fn new(entries: Vec<BootEntry>, order: BootOrder) -> (menu: Self)
        ensures
            menu@ == (OrderedBootEntriesView {
                entries: entries_by_id(entry_views(entries@)),
                order: order@,
            }),
    {
        let ghost all = entry_views(entries@);
        let mut by_id: HashMap<u16, BootEntry> = HashMap::new();
        let ghost mut done: int = 0;
        for entry in it: entries.into_iter()
            invariant
                all == entry_views(entries@),
                it.index() == done,
                0 <= done <= all.len(),
                by_id@.map_values(|e: BootEntry| e@) == entries_by_id(all.take(done)),
        {
            assert(all.take(done + 1).drop_last() == all.take(done));
            by_id.insert(entry.id, entry);
            proof {
                done = done + 1;
            }
        }
        assert(all.take(done) == all);
        OrderedBootEntries { entries: by_id, order }
    }

    /// The entries in the order of the boot menu. A number of the order that
    /// no entry has is passed over.
    pub fn iter(&self) -> (entries: Vec<&BootEntry>)
        ensures
            entry_ref_views(entries@) == ordered_entries(self@.order, self@.entries),
    {
        let ids = self.order.iter();
        let ghost pick = |id: u16|
            if self@.entries.contains_key(id) {
                Some(self@.entries[id])
            } else {
                None
            };
        let mut entries: Vec<&BootEntry> = Vec::new();
        let mut i: usize = 0;
        while i < ids.len()
            invariant
                i <= ids.len(),
                ids@ == self@.order,
                pick == |id: u16|
                    if self@.entries.contains_key(id) {
                        Some(self@.entries[id])
                    } else {
                        None
                    },
                entry_ref_views(entries@) == ids@.take(i as int).filter_map(pick),
            decreases ids.len() - i,
        {
            proof {
                ids@.lemma_filter_map_take_succ(pick, i as int);
            }
            match self.entries.get(&ids[i]) {
                Some(entry) => {
                    entries.push(entry);
                },
                None => {},
            }
            i = i + 1;
        }
        assert(ids@.take(i as int) == ids@);
        entries
    }
}

/// Why one boot entry could not be had.
pub enum ReadBootEntryError<E: EFIVars> {
    /// The store could not read the entry's variable.
    ReadVariableError(E::ReadError),
    /// The entry's variable holds no load option.
    ParseError(BootEntryParseError),
}

/// Why the boot menu could not be had.
pub enum ListBootEntriesError<E: EFIVars> {
    /// The store could not list the names of its variables.
    ListVariablesError(E::ListError),
    /// A boot entry could not be had.
    ReadBootEntryError(ReadBootEntryError<E>),
    /// The store holds no `BootOrder` variable.
    NoBootOrderVariableError,
    /// The store could not read the `BootOrder` variable.
    ReadBootOrderVariableError(E::ReadError),
    /// The `BootOrder` variable holds no list of numbers.
    ParseBootOrderError(BootOrderParseError),
}

/// The boot entry `id` that reading its variable came to: a variable that
/// could not be read and a payload that is no load option both fail the
/// entry.
pub open spec fn boot_entry_of<E: EFIVars>(
    id: u16,
    outcome: Result<EFIVariable, E::ReadError>,
) -> Result<BootEntryView, ReadBootEntryError<E>> {
    match outcome {
        Err(e) => Err(ReadBootEntryError::ReadVariableError(e)),
        Ok(variable) => match decode_load_option(variable@.data) {
            Ok(load_option) => Ok(BootEntryView { id, load_option }),
            Err(source) => Err(ReadBootEntryError::ParseError(BootEntryParseError { id, source })),
        },
    }
}

/// Whether `r` is the entry, or the failure, that `expected` says.
pub open spec fn is_entry<E: EFIVars>(
    r: Result<BootEntry, ReadBootEntryError<E>>,
    expected: Result<BootEntryView, ReadBootEntryError<E>>,
) -> bool {
    match r {
        Ok(entry) => expected == Ok::<BootEntryView, ReadBootEntryError<E>>(entry@),
        Err(e) => expected == Err::<BootEntryView, ReadBootEntryError<E>>(e),
    }
}

/// Makes a boot entry of what reading the variable of the entry `id` came to.
pub fn boot_entry_from_read<E: EFIVars>(id: u16, outcome: Result<EFIVariable, E::ReadError>) -> (r:
    Result<BootEntry, ReadBootEntryError<E>>)
    ensures
        is_entry(r, boot_entry_of::<E>(id, outcome)),
{
    match outcome {
        Ok(variable) => match BootEntry::parse(id, &variable) {
            Ok(entry) => Ok(entry),
            Err(e) => Err(ReadBootEntryError::ParseError(e)),
        },
        Err(e) => Err(ReadBootEntryError::ReadVariableError(e)),
    }
}

/// The order of the boot menu that reading the `BootOrder` variable came to.
/// A store without the variable, a variable that could not be read and a
/// payload of odd length each fail with an error of their own.
pub open spec fn boot_order_of<E: EFIVars>(
    outcome: Option<Result<EFIVariable, E::ReadError>>,
) -> Result<Seq<u16>, ListBootEntriesError<E>> {
    match outcome {
        None => Err(ListBootEntriesError::NoBootOrderVariableError),
        Some(Err(e)) => Err(ListBootEntriesError::ReadBootOrderVariableError(e)),
        Some(Ok(variable)) => match decode_boot_order(variable@.data) {
            Some(order) => Ok(order),
            None => Err(ListBootEntriesError::ParseBootOrderError(BootOrderParseError::OddLength)),
        },
    }
}

/// Makes the order of the boot menu of what reading the `BootOrder` variable
/// came to.
pub fn boot_order_from_read<E: EFIVars>(outcome: Option<Result<EFIVariable, E::ReadError>>) -> (r:
    Result<BootOrder, ListBootEntriesError<E>>)
    ensures
        match r {
            Ok(order) => boot_order_of::<E>(outcome) == Ok::<Seq<u16>, ListBootEntriesError<E>>(
                order@,
            ),
            Err(e) => boot_order_of::<E>(outcome) == Err::<Seq<u16>, ListBootEntriesError<E>>(e),
        },
{
    match outcome {
        None => Err(ListBootEntriesError::NoBootOrderVariableError),
        Some(Err(e)) => Err(ListBootEntriesError::ReadBootOrderVariableError(e)),
        Some(Ok(variable)) => match BootOrder::parse(variable.data()) {
            Ok(order) => Ok(order),
            Err(e) => Err(ListBootEntriesError::ParseBootOrderError(e)),
        },
    }
}

/// The entries gathered from what looking for one entry after the other came
/// to, or the first failure among these.
pub open spec fn gathered<E: EFIVars>(
    outcomes: Seq<Option<Result<BootEntry, ReadBootEntryError<E>>>>,
) -> Result<Seq<BootEntry>, ReadBootEntryError<E>>
    decreases outcomes.len(),
{
    if outcomes.len() == 0 {
        Ok(Seq::empty())
    } else {
        match gathered(outcomes.drop_last()) {
            Err(e) => Err(e),
            Ok(entries) => match outcomes.last() {
                None => Ok(entries),
                Some(Ok(entry)) => Ok(entries.push(entry)),
                Some(Err(e)) => Err(e),
            },
        }
    }
}

/// Adds to the entries gathered so far what looking for one more entry came
/// to: nothing where the variable is no boot entry or is gone, the entry where
/// one was read. A failure leaves the entries as they were and is handed on.
pub fn gather_boot_entry<E: EFIVars>(
    entries: &mut Vec<BootEntry>,
    outcome: Option<Result<BootEntry, ReadBootEntryError<E>>>,
) -> (r: Result<(), ReadBootEntryError<E>>)
    ensures
        match outcome {
            None => r is Ok && final(entries)@ == old(entries)@,
            Some(Ok(entry)) => r is Ok && final(entries)@ == old(entries)@.push(entry),
            Some(Err(e)) => r == Err::<(), ReadBootEntryError<E>>(e) && final(entries)@ == old(
                entries,
            )@,
        },
{
    match outcome {
        None => Ok(()),
        Some(Ok(entry)) => {
            entries.push(entry);
            Ok(())
        },
        Some(Err(e)) => Err(e),
    }
}

/// Whether `name` is the name of the variable that holds the order of the
/// boot menu: `BootOrder` in the namespace of the firmware's own variables.
pub open spec fn is_boot_order_name(name: VariableName) -> bool {
    &&& name@.key == seq!['B', 'o', 'o', 't', 'O', 'r', 'd', 'e', 'r']
    &&& name@.vendor == crate::efivar::EFI_GLOBAL_VENDOR@
}

/// The name of the variable that holds the order of the boot menu.
pub fn boot_order_name() -> (name: VariableName)
    ensures
        is_boot_order_name(name),
{
    proof {
        reveal_strlit("BootOrder");
        assert("BootOrder"@ =~= seq!['B', 'o', 'o', 't', 'O', 'r', 'd', 'e', 'r']);
    }
    VariableName::global_vendor_new("BootOrder".to_owned())
}

/// What looking for the boot entry in the variable `name` of a store comes
/// to. Where the key of the name is not that of a boot entry, nothing, and
/// the store is not asked. Else the store is asked for that variable: where
/// it holds none, nothing; else the entry made of what reading it came to.
pub open spec fn boot_entry_read<E: EFIVars>(
    store: &E,
    name: &VariableName,
    r: Option<Result<BootEntry, ReadBootEntryError<E>>>,
) -> bool {
    match boot_key_id(name@.key) {
        None => r is None,
        Some(id) => exists|read: Option<Result<EFIVariable, E::ReadError>>|
            {
                &&& call_ensures(E::read_variable, (store, name), read)
                &&& match read {
                    None => r is None,
                    Some(outcome) => r matches Some(entry) && is_entry(
                        entry,
                        boot_entry_of::<E>(id, outcome),
                    ),
                }
            },
    }
}

/// What looking for a boot entry in each of the variables `names`, in order
/// and up to the first failure, comes to: one outcome for each name looked
/// at, the last of which alone may be a failure.
pub open spec fn boot_entries_read<E: EFIVars>(
    store: &E,
    names: Seq<VariableName>,
    outcomes: Seq<Option<Result<BootEntry, ReadBootEntryError<E>>>>,
) -> bool {
    &&& outcomes.len() <= names.len()
    &&& forall|k: int|
        0 <= k < outcomes.len() ==> boot_entry_read(store, &names[k], #[trigger] outcomes[k])
    &&& gathered(outcomes) is Ok ==> outcomes.len() == names.len()
    &&& outcomes.len() > 0 ==> gathered(outcomes.drop_last()) is Ok
}

/// Whether `r` is the boot menu with the given order and the entries
/// gathered, or the failure to gather them.
pub open spec fn is_menu<E: EFIVars>(
    r: Result<OrderedBootEntries, ListBootEntriesError<E>>,
    order: Seq<u16>,
    entries: Result<Seq<BootEntry>, ReadBootEntryError<E>>,
) -> bool {
    match entries {
        Err(e) => r matches Err(ListBootEntriesError::ReadBootEntryError(f)) && f == e,
        Ok(entries) => r matches Ok(menu) && menu@ == (OrderedBootEntriesView {
            entries: entries_by_id(entry_views(entries)),
            order,
        }),
    }
}

/// Whether `r` can be the boot menu of a store whose listing is `names`,
/// given the order of the menu: the menu of the entries gathered from what
/// looking for a boot entry in each of the names, in order, came to.
pub open spec fn is_menu_of_names<E: EFIVars>(
    store: &E,
    order: Seq<u16>,
    names: Seq<VariableName>,
    r: Result<OrderedBootEntries, ListBootEntriesError<E>>,
) -> bool {
    exists|outcomes: Seq<Option<Result<BootEntry, ReadBootEntryError<E>>>>|
        {
            &&& #[trigger] boot_entries_read(store, names, outcomes)
            &&& is_menu(r, order, gathered(outcomes))
        }
}

/// The boot menu of a store of firmware variables.
pub trait ListBootEntriesExt: EFIVars + Sized {
    /// The boot entry that the variable `name` holds. `None`, without a look
    /// at the store, where the key of the name is not that of a boot entry;
    /// `None` too where the store holds no such variable.
    fn read_boot_entry(&self, name: &VariableName) -> (r: Option<
        Result<BootEntry, ReadBootEntryError<Self>>,
    >)
        ensures
            boot_entry_read(self, name, r),
    ;

    /// The boot menu. Reads the `BootOrder` variable for the order, lists the
    /// names of the store's variables, and looks for a boot entry in each of
    /// them, one after the other in the order of the listing. The first
    /// failure of any of these fails the whole; no part of a menu is returned.
    fn list_boot_entries(&self) -> (r: Result<OrderedBootEntries, ListBootEntriesError<Self>>)
        ensures
            exists|name: VariableName, order_read: Option<Result<EFIVariable, Self::ReadError>>|
                {
                    &&& is_boot_order_name(name)
                    &&& call_ensures(Self::read_variable, (self, &name), order_read)
                    &&& match boot_order_of::<Self>(order_read) {
                        Err(e) => r == Err::<OrderedBootEntries, ListBootEntriesError<Self>>(e),
                        Ok(order) => exists|listed: Result<Vec<VariableName>, Self::ListError>|
                            {
                                &&& call_ensures(Self::enumerate_variables, (self,), listed)
                                &&& match listed {
                                    Err(e) => r == Err::<
                                        OrderedBootEntries,
                                        ListBootEntriesError<Self>,
                                    >(ListBootEntriesError::ListVariablesError(e)),
                                    Ok(names) => is_menu_of_names(self, order, names@, r),
                                }
                            },
                    }
                },
    ;
}

impl<E: EFIVars> ListBootEntriesExt for E {
    fn read_boot_entry(&self, name: &VariableName) -> (r: Option<
        Result<BootEntry, ReadBootEntryError<E>>,
    >) {
        let id = match boot_entry_id(name.key()) {
            Some(id) => id,
            None => {
                return None;
            },
        };
        match self.read_variable(name) {
            Some(outcome) => Some(boot_entry_from_read(id, outcome)),
            None => None,
        }
    }

    fn list_boot_entries(&self) -> (r: Result<OrderedBootEntries, ListBootEntriesError<E>>) {
        let name = boot_order_name();
        let order_read = self.read_variable(&name);
        let order = match boot_order_from_read::<E>(order_read) {
            Ok(order) => order,
            Err(e) => {
                return Err(e);
            },
        };
        let variables = match self.enumerate_variables() {
            Ok(names) => names,
            Err(e) => {
                return Err(ListBootEntriesError::ListVariablesError(e));
            },
        };
        let mut entries: Vec<BootEntry> = Vec::new();
        let ghost mut outcomes: Seq<Option<Result<BootEntry, ReadBootEntryError<E>>>> =
            Seq::empty();
        let mut i: usize = 0;
        #[verifier::loop_isolation(false)]
        while i < variables.len()
            invariant
                i <= variables.len(),
                outcomes.len() == i,
                boot_entries_read(self, variables@.take(i as int), outcomes),
                gathered(outcomes) == Ok::<Seq<BootEntry>, ReadBootEntryError<E>>(entries@),
            decreases variables.len() - i,
        {
            let outcome = self.read_boot_entry(&variables[i]);
            proof {
                let before = outcomes;
                outcomes = outcomes.push(outcome);
                assert(outcomes.drop_last() == before);
            }
            match gather_boot_entry(&mut entries, outcome) {
                Ok(()) => {},
                Err(e) => {
                    let r = Err(ListBootEntriesError::ReadBootEntryError(e));
                    assert(boot_entries_read(self, variables@, outcomes));
                    assert(is_menu(r, order@, gathered(outcomes)));
                    return r;
                },
            }
            i = i + 1;
        }
        assert(variables@.take(i as int) == variables@);
        Ok(OrderedBootEntries::new(entries, order))
    }
}

/// Every entry stands in the map under its own number, and the map holds
/// the numbers of the listed entries and no other.
pub proof fn lemma_entries_by_id(entries: Seq<BootEntryView>)
    ensures
        forall|id: u16| #[trigger]
            entries_by_id(entries).contains_key(id) ==> entries_by_id(entries)[id].id == id,
        forall|id: u16| #[trigger]
            entries_by_id(entries).contains_key(id) <==> exists|i: int|
                0 <= i < entries.len() && entries[i].id == id,
    decreases entries.len(),
{
    let all = entries_by_id(entries);
    if entries.len() == 0 {
        assert(all == Map::<u16, BootEntryView>::empty());
    } else {
        let rest = entries.drop_last();
        let last = entries.last();
        let before = entries_by_id(rest);
        lemma_entries_by_id(rest);
        assert(all == before.insert(last.id, last));
        assert forall|id: u16| #[trigger] all.contains_key(id) implies all[id].id == id by {
            if id != last.id {
                assert(before.contains_key(id));
            }
        }
        assert forall|id: u16| #[trigger]
            all.contains_key(id) <==> exists|i: int|
                0 <= i < entries.len() && entries[i].id == id by {
            if all.contains_key(id) {
                if id == last.id {
                    assert(entries[entries.len() - 1].id == id);
                } else {
                    assert(before.contains_key(id));
                    let i = choose|i: int| 0 <= i < rest.len() && rest[i].id == id;
                    assert(entries[i].id == id);
                }
            }
            if exists|i: int| 0 <= i < entries.len() && entries[i].id == id {
                let i = choose|i: int| 0 <= i < entries.len() && entries[i].id == id;
                if i < rest.len() {
                    assert(rest[i].id == id);
                    assert(before.contains_key(id));
                }
            }
        }
    }
}

/// Gathering from two runs of outcomes, one after the other, gathers what the
/// first run gives and then what the second gives, and fails with the first
/// failure of either.
pub proof fn lemma_gathered_add<E: EFIVars>(
    a: Seq<Option<Result<BootEntry, ReadBootEntryError<E>>>>,
    b: Seq<Option<Result<BootEntry, ReadBootEntryError<E>>>>,
)
    ensures
        gathered(a + b) == match gathered(a) {
            Err(e) => Err(e),
            Ok(first) => match gathered(b) {
                Err(e) => Err(e),
                Ok(second) => Ok(first + second),
            },
        },
    decreases b.len(),
{
    if b.len() == 0 {
        assert(a + b =~= a);
        match gathered(a) {
            Ok(first) => {
                assert(first + Seq::<BootEntry>::empty() =~= first);
            },
            Err(_) => {},
        }
    } else {
        assert((a + b).drop_last() =~= a + b.drop_last());
        assert((a + b).last() == b.last());
        lemma_gathered_add(a, b.drop_last());
        match (gathered(a), gathered(b.drop_last()), b.last()) {
            (Ok(first), Ok(second), Some(Ok(entry))) => {
                assert((first + second).push(entry) =~= first + second.push(entry));
            },
            _ => {},
        }
    }
}

/// A variable that is no boot entry, or is gone, leaves no mark: gathering
/// gives what it would give had that variable never been looked at.
pub proof fn lemma_no_entry_is_passed_over<E: EFIVars>(
    outcomes: Seq<Option<Result<BootEntry, ReadBootEntryError<E>>>>,
    i: int,
)
    requires
        0 <= i < outcomes.len(),
        outcomes[i] is None,
    ensures
        gathered(outcomes) == gathered(outcomes.remove(i)),
{
    let before = outcomes.take(i);
    let after = outcomes.skip(i + 1);
    let one = seq![outcomes[i]];
    assert(outcomes =~= before + one + after);
    assert(outcomes.remove(i) =~= before + after);
    assert(one.drop_last() =~= Seq::empty());
    assert(gathered(one) == Ok::<Seq<BootEntry>, ReadBootEntryError<E>>(Seq::empty())) by {
        assert(gathered(one.drop_last()) == Ok::<Seq<BootEntry>, ReadBootEntryError<E>>(
            Seq::empty(),
        ));
    }
    lemma_gathered_add(before + one, after);
    lemma_gathered_add(before, one);
    lemma_gathered_add(before, after);
    match gathered(before) {
        Ok(first) => {
            assert(first + Seq::<BootEntry>::empty() =~= first);
        },
        Err(_) => {},
    }
}

/// Dropping the last outcome of a gathering that gave entries leaves a
/// gathering that gives entries.
pub proof fn lemma_gathered_before<E: EFIVars>(
    outcomes: Seq<Option<Result<BootEntry, ReadBootEntryError<E>>>>,
)
    requires
        outcomes.len() > 0,
        gathered(outcomes) is Ok,
    ensures
        gathered(outcomes.drop_last()) is Ok,
{
}

/// A store that lists one name more, whose key is not that of a boot entry,
/// has the same boot menu: whatever the menu of the one listing can be, the
/// menu of the other can be, and the other way round. The variable of that
/// name is not read, whatever it holds, and the entries found before and
/// after it are gathered as they were.
pub proof fn lemma_other_names_leave_the_menu<E: EFIVars>(
    store: &E,
    order: Seq<u16>,
    names: Seq<VariableName>,
    other: VariableName,
    i: int,
    r: Result<OrderedBootEntries, ListBootEntriesError<E>>,
)
    requires
        0 <= i <= names.len(),
        boot_key_id(other@.key) is None,
    ensures
        is_menu_of_names(store, order, names, r) <==> is_menu_of_names(
            store,
            order,
            names.insert(i, other),
            r,
        ),
{
    let more = names.insert(i, other);
    if is_menu_of_names(store, order, names, r) {
        let outcomes = choose|outcomes: Seq<Option<Result<BootEntry, ReadBootEntryError<E>>>>|
            {
                &&& #[trigger] boot_entries_read(store, names, outcomes)
                &&& is_menu(r, order, gathered(outcomes))
            };
        if i < outcomes.len() || gathered(outcomes) is Ok {
            let with = outcomes.insert(i, None);
            assert(with.remove(i) =~= outcomes);
            lemma_no_entry_is_passed_over(with, i);
            assert forall|k: int| 0 <= k < with.len() implies boot_entry_read(
                store,
                &more[k],
                #[trigger] with[k],
            ) by {
                if k < i {
                    assert(boot_entry_read(store, &names[k], outcomes[k]));
                } else if k > i {
                    assert(boot_entry_read(store, &names[k - 1], outcomes[k - 1]));
                }
            }
            if i == outcomes.len() {
                assert(with.drop_last() =~= outcomes);
            } else {
                let before = with.drop_last();
                assert(before.remove(i) =~= outcomes.drop_last());
                lemma_no_entry_is_passed_over(before, i);
            }
            assert(boot_entries_read(store, more, with));
        } else {
            assert forall|k: int| 0 <= k < outcomes.len() implies boot_entry_read(
                store,
                &more[k],
                #[trigger] outcomes[k],
            ) by {
                assert(boot_entry_read(store, &names[k], outcomes[k]));
            }
            assert(boot_entries_read(store, more, outcomes));
        }
    }
    if is_menu_of_names(store, order, more, r) {
        let with = choose|with: Seq<Option<Result<BootEntry, ReadBootEntryError<E>>>>|
            {
                &&& #[trigger] boot_entries_read(store, more, with)
                &&& is_menu(r, order, gathered(with))
            };
        if i < with.len() {
            assert(boot_entry_read(store, &more[i], with[i]));
            let outcomes = with.remove(i);
            lemma_no_entry_is_passed_over(with, i);
            assert forall|k: int| 0 <= k < outcomes.len() implies boot_entry_read(
                store,
                &names[k],
                #[trigger] outcomes[k],
            ) by {
                if k < i {
                    assert(boot_entry_read(store, &more[k], with[k]));
                } else {
                    assert(boot_entry_read(store, &more[k + 1], with[k + 1]));
                }
            }
            if outcomes.len() > 0 {
                if i == with.len() - 1 {
                    assert(with.drop_last() =~= outcomes);
                    lemma_gathered_before(outcomes);
                } else {
                    let before = with.drop_last();
                    assert(before.remove(i) =~= outcomes.drop_last());
                    lemma_no_entry_is_passed_over(before, i);
                }
            }
            assert(boot_entries_read(store, names, outcomes));
        } else {
            assert forall|k: int| 0 <= k < with.len() implies boot_entry_read(
                store,
                &names[k],
                #[trigger] with[k],
            ) by {
                assert(boot_entry_read(store, &more[k], with[k]));
            }
            assert(boot_entries_read(store, names, with));
        }
    }
}

/// Walking an order made of two parts meets what the first part meets, then
/// what the second meets.
pub proof fn lemma_ordered_entries_add(a: Seq<u16>, b: Seq<u16>, entries: Map<u16, BootEntryView>)
    ensures
        ordered_entries(a + b, entries) == ordered_entries(a, entries) + ordered_entries(b, entries),
    decreases b.len(),
{
    if b.len() > 0 {
        assert((a + b).drop_last() =~= a + b.drop_last());
        lemma_ordered_entries_add(a, b.drop_last(), entries);
    }
}

/// A number of the order that no entry has is passed over: the walk meets
/// what it would meet if the order did not hold that number.
pub proof fn lemma_dangling_id_omitted(order: Seq<u16>, entries: Map<u16, BootEntryView>, i: int)
    requires
        0 <= i < order.len(),
        !entries.contains_key(order[i]),
    ensures
        ordered_entries(order, entries) == ordered_entries(order.remove(i), entries),
{
    let before = order.take(i);
    let after = order.skip(i + 1);
    let one = seq![order[i]];
    assert(order =~= before + one + after);
    lemma_ordered_entries_add(before + one, after, entries);
    lemma_ordered_entries_add(before, one, entries);
    lemma_ordered_entries_add(before, after, entries);
    assert(ordered_entries(one, entries) =~= Seq::empty()) by {
        assert(ordered_entries(one.drop_last(), entries) =~= Seq::empty());
    }
}

/// Every entry that the walk meets is an entry of the menu, and the walk
/// meets at most one entry for each number of the order.
pub proof fn lemma_ordered_entries_known(order: Seq<u16>, entries: Map<u16, BootEntryView>)
    ensures
        ordered_entries(order, entries).len() <= order.len(),
        forall|k: int|
            0 <= k < ordered_entries(order, entries).len() ==> entries.contains_value(
                #[trigger] ordered_entries(order, entries)[k],
            ),
    decreases order.len(),
{
    if order.len() > 0 {
        lemma_ordered_entries_known(order.drop_last(), entries);
    }
}

} // verus!
