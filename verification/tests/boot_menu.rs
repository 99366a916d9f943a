use efivar::backend::EFIVars;
use efivar::efiboot::{
    boot_entry_from_read, boot_entry_id, boot_order_from_read, boot_order_name, gather_boot_entry,
    BootEntry, BootEntryParseError, BootOrder, BootOrderParseError, ListBootEntriesError,
    ListBootEntriesExt, OrderedBootEntries, ReadBootEntryError,
};
use efivar::efidevicepath::DevicePathProtocolParseError;
use efivar::efiloadoption::{
    EFILoadOption, LoadOptionAttributeFlag, LoadOptionAttributeFlags, LoadOptionAttributes,
    LoadOptionCategory, LoadOptionParseError,
};
use efivar::efivar::{EFIVariable, EFIVariableAttributes, VariableName};
use efivar::guid::Guid;

/// A store with canned variables: the names in listing order, each with what
/// reading it comes to.
struct Canned {
    list_fails: bool,
    variables: Vec<(VariableName, Result<Vec<u8>, String>)>,
    listed_only: Vec<VariableName>,
}

impl Canned {
    fn new() -> Canned {
        Canned { list_fails: false, variables: vec![], listed_only: vec![] }
    }

    fn with(mut self, key: &str, payload: &[u8]) -> Canned {
        self.variables.push((VariableName::global_vendor_new(key.to_string()), Ok(payload.to_vec())));
        self
    }

    fn with_unreadable(mut self, key: &str, why: &str) -> Canned {
        self.variables.push((VariableName::global_vendor_new(key.to_string()), Err(why.to_string())));
        self
    }

    fn with_vanished(mut self, key: &str) -> Canned {
        self.listed_only.push(VariableName::global_vendor_new(key.to_string()));
        self
    }
}

impl EFIVars for Canned {
    type ListError = String;
    type ReadError = String;

    fn enumerate_variables(&self) -> Result<Vec<VariableName>, String> {
        if self.list_fails {
            return Err("cannot list".to_string());
        }
        let mut names: Vec<VariableName> = self.variables.iter().map(|v| v.0.clone()).collect();
        names.extend(self.listed_only.iter().cloned());
        Ok(names)
    }

    fn read_variable(&self, name: &VariableName) -> Option<Result<EFIVariable, String>> {
        let found = self.variables.iter().find(|v| &v.0 == name)?;
        Some(match &found.1 {
            Ok(payload) => Ok(EFIVariable::new(
                name.clone(),
                EFIVariableAttributes::from_bits_truncate(7),
                payload.clone(),
            )),
            Err(why) => Err(why.clone()),
        })
    }
}

fn load_option(description: &str, active: bool) -> Vec<u8> {
    let flags = if active {
        LoadOptionAttributeFlags::from_flag(LoadOptionAttributeFlag::Active)
    } else {
        LoadOptionAttributeFlags::empty()
    };
    let option = EFILoadOption::new(
        LoadOptionAttributes::new(flags, LoadOptionCategory::boot()),
        vec![],
        description.to_string(),
        vec![],
    );
    let mut bytes = vec![];
    option.write(&mut bytes).unwrap();
    bytes
}

fn descriptions(menu: &OrderedBootEntries) -> Vec<String> {
    menu.iter().iter().map(|e| e.description().to_string()).collect()
}

#[test]
fn boot_key_with_four_upper_case_digits_is_an_entry() {
    assert_eq!(boot_entry_id("Boot0001"), Some(0x0001));
    assert_eq!(boot_entry_id("Boot0000"), Some(0x0000));
    assert_eq!(boot_entry_id("BootFFFF"), Some(0xFFFF));
    assert_eq!(boot_entry_id("Boot1A2B"), Some(0x1A2B));
    assert_eq!(boot_entry_id("Boot09AF"), Some(0x09AF));
}

#[test]
fn other_keys_are_no_entries() {
    assert_eq!(boot_entry_id("BootOrder"), None);
    assert_eq!(boot_entry_id("Boot001"), None);
    assert_eq!(boot_entry_id("Boot00011"), None);
    assert_eq!(boot_entry_id("Boot000a"), None);
    assert_eq!(boot_entry_id("Boot000G"), None);
    assert_eq!(boot_entry_id("boot0001"), None);
    assert_eq!(boot_entry_id("BOOT0001"), None);
    assert_eq!(boot_entry_id("xBoot0001"), None);
    assert_eq!(boot_entry_id("Boot0001\n"), None);
    assert_eq!(boot_entry_id("Boot00/1"), None);
    assert_eq!(boot_entry_id("Boot00:1"), None);
    assert_eq!(boot_entry_id("Boot00@1"), None);
    assert_eq!(boot_entry_id("Boot\u{660}001"), None);
    assert_eq!(boot_entry_id(""), None);
    assert_eq!(boot_entry_id("Timeout"), None);
}

#[test]
fn boot_order_is_little_endian_pairs() {
    let order = BootOrder::parse(&[0x01, 0x00, 0x00, 0x10, 0xff, 0xff]).unwrap();
    assert_eq!(order.iter(), &[0x0001, 0x1000, 0xffff]);
    let empty = BootOrder::parse(&[]).unwrap();
    assert_eq!(empty.iter().len(), 0);
}

#[test]
fn boot_order_of_odd_length_is_rejected() {
    assert_eq!(BootOrder::parse(&[0x01, 0x00, 0x02]), Err(BootOrderParseError::OddLength));
    assert_eq!(BootOrder::parse(&[0x01]), Err(BootOrderParseError::OddLength));
}

#[test]
fn lists_the_single_entry_of_the_order() {
    let store = Canned::new()
        .with("BootOrder", &[0x01, 0x00])
        .with("Boot0001", &load_option("Arch Linux", true));

    let menu = store.list_boot_entries().ok().unwrap();
    let entries = menu.iter();

    assert_eq!(entries.len(), 1);
    assert_eq!(entries[0].description(), "Arch Linux");
    assert!(entries[0].is_active());
    assert_eq!(entries[0].id(), 1);
}

#[test]
fn entries_come_in_the_order_of_boot_order() {
    let store = Canned::new()
        .with("Boot0000", &load_option("first listed", true))
        .with("Boot0002", &load_option("second listed", false))
        .with("BootOrder", &[0x02, 0x00, 0x00, 0x00])
        .with("Boot0001", &load_option("not in the order", true));

    let menu = store.list_boot_entries().ok().unwrap();

    assert_eq!(descriptions(&menu), vec!["second listed", "first listed"]);
    assert!(!menu.iter()[0].is_active());
    assert!(menu.iter()[1].is_active());
}

#[test]
fn an_id_without_variable_is_passed_over() {
    let store = Canned::new()
        .with("BootOrder", &[0x05, 0x00, 0x01, 0x00, 0x07, 0x00])
        .with("Boot0001", &load_option("only one", true));

    let menu = store.list_boot_entries().ok().unwrap();

    assert_eq!(descriptions(&menu), vec!["only one"]);
}

#[test]
fn an_id_named_twice_is_met_twice() {
    let store = Canned::new()
        .with("BootOrder", &[0x01, 0x00, 0x01, 0x00])
        .with("Boot0001", &load_option("again", true));

    let menu = store.list_boot_entries().ok().unwrap();

    assert_eq!(descriptions(&menu), vec!["again", "again"]);
}

#[test]
fn other_variables_do_not_disturb_the_menu() {
    let plain = Canned::new()
        .with("BootOrder", &[0x01, 0x00, 0x02, 0x00])
        .with("Boot0001", &load_option("one", true))
        .with("Boot0002", &load_option("two", true));
    let mixed = Canned::new()
        .with("Timeout", &[0x05, 0x00])
        .with("BootOrder", &[0x01, 0x00, 0x02, 0x00])
        .with("Boot0001", &load_option("one", true))
        .with("Boot000g", &[0xde, 0xad])
        .with_unreadable("BootCurrent", "denied")
        .with("Boot0002", &load_option("two", true))
        .with("Boot00021", &[]);

    let expected = descriptions(&plain.list_boot_entries().ok().unwrap());
    let found = descriptions(&mixed.list_boot_entries().ok().unwrap());

    assert_eq!(expected, vec!["one", "two"]);
    assert_eq!(found, expected);
}

#[test]
fn a_listed_entry_that_is_gone_is_passed_over() {
    let store = Canned::new()
        .with("BootOrder", &[0x01, 0x00, 0x02, 0x00])
        .with("Boot0002", &load_option("still here", true))
        .with_vanished("Boot0001");

    let menu = store.list_boot_entries().ok().unwrap();

    assert_eq!(descriptions(&menu), vec!["still here"]);
}

#[test]
fn a_missing_boot_order_fails_the_menu() {
    let store = Canned::new().with("Boot0001", &load_option("one", true));

    assert!(matches!(
        store.list_boot_entries(),
        Err(ListBootEntriesError::NoBootOrderVariableError)
    ));
}

#[test]
fn an_unreadable_boot_order_fails_the_menu() {
    let store = Canned::new()
        .with_unreadable("BootOrder", "denied")
        .with("Boot0001", &load_option("one", true));

    match store.list_boot_entries() {
        Err(ListBootEntriesError::ReadBootOrderVariableError(why)) => assert_eq!(why, "denied"),
        _ => panic!("the failure to read BootOrder is lost"),
    }
}

#[test]
fn a_boot_order_of_odd_length_fails_the_menu() {
    let store = Canned::new()
        .with("BootOrder", &[0x01, 0x00, 0x02])
        .with("Boot0001", &load_option("one", true));

    assert!(matches!(
        store.list_boot_entries(),
        Err(ListBootEntriesError::ParseBootOrderError(BootOrderParseError::OddLength))
    ));
}

#[test]
fn a_failed_listing_fails_the_menu() {
    let mut store = Canned::new().with("BootOrder", &[0x01, 0x00]);
    store.list_fails = true;

    match store.list_boot_entries() {
        Err(ListBootEntriesError::ListVariablesError(why)) => assert_eq!(why, "cannot list"),
        _ => panic!("the failure to list is lost"),
    }
}

#[test]
fn an_unreadable_entry_fails_the_menu() {
    let store = Canned::new()
        .with("BootOrder", &[0x01, 0x00])
        .with("Boot0001", &load_option("one", true))
        .with_unreadable("Boot0002", "broken");

    match store.list_boot_entries() {
        Err(ListBootEntriesError::ReadBootEntryError(ReadBootEntryError::ReadVariableError(
            why,
        ))) => assert_eq!(why, "broken"),
        _ => panic!("the failure to read an entry is lost"),
    }
}

#[test]
fn an_entry_with_an_unknown_node_fails_the_menu_with_its_id() {
    let mut payload = vec![0x01, 0x00, 0x00, 0x00, 0x04, 0x00, 0x00, 0x00];
    payload.extend_from_slice(&[0xAA, 0x01, 0x04, 0x00]);
    let store = Canned::new()
        .with("BootOrder", &[0x01, 0x00])
        .with("Boot0001", &load_option("one", true))
        .with("Boot00A7", &payload);

    match store.list_boot_entries() {
        Err(ListBootEntriesError::ReadBootEntryError(ReadBootEntryError::ParseError(e))) => {
            assert_eq!(
                e,
                BootEntryParseError::new(
                    0x00A7,
                    LoadOptionParseError::DevicePathProtocolParseError(
                        DevicePathProtocolParseError::UnknownType(0xAA)
                    )
                )
            );
        }
        _ => panic!("the failure to read a load option is lost"),
    }
}

#[test]
fn read_boot_entry_looks_at_the_key_first() {
    let store = Canned::new()
        .with("Boot0003", &load_option("three", false))
        .with_unreadable("Timeout", "never read");

    let entry = store
        .read_boot_entry(&VariableName::global_vendor_new("Boot0003".to_string()))
        .unwrap()
        .ok()
        .unwrap();
    assert_eq!(entry.id(), 3);
    assert_eq!(entry.description(), "three");
    assert!(store.read_boot_entry(&VariableName::global_vendor_new("Timeout".to_string())).is_none());
    assert!(store.read_boot_entry(&VariableName::global_vendor_new("Boot0009".to_string())).is_none());
}

#[test]
fn the_vendor_of_a_boot_entry_is_not_looked_at() {
    let other = Guid::from_bytes([0x11; 16]);
    let name = VariableName::new("Boot0004".to_string(), other);
    let mut store = Canned::new();
    store.variables.push((name.clone(), Ok(load_option("elsewhere", true))));

    let entry = store.read_boot_entry(&name).unwrap().ok().unwrap();

    assert_eq!(entry.id(), 4);
}

#[test]
fn steps_turn_outcomes_into_entries_and_order() {
    let name = VariableName::global_vendor_new("Boot0001".to_string());
    let variable =
        EFIVariable::new(name, EFIVariableAttributes::from_bits_truncate(7), load_option("x", true));
    let entry = boot_entry_from_read::<Canned>(1, Ok(variable)).ok().unwrap();
    assert_eq!(entry.description(), "x");
    assert!(matches!(
        boot_entry_from_read::<Canned>(1, Err("no".to_string())),
        Err(ReadBootEntryError::ReadVariableError(_))
    ));
    assert!(matches!(
        boot_order_from_read::<Canned>(None),
        Err(ListBootEntriesError::NoBootOrderVariableError)
    ));
}

#[test]
fn gathering_skips_what_is_no_entry_and_stops_at_a_failure() {
    let mut entries = vec![];
    let one = BootEntry::new(1, EFILoadOption::parse(&load_option("one", true)).unwrap());

    assert!(gather_boot_entry::<Canned>(&mut entries, Some(Ok(one))).is_ok());
    assert!(gather_boot_entry::<Canned>(&mut entries, None).is_ok());
    assert_eq!(entries.len(), 1);
    let failure = ReadBootEntryError::ReadVariableError("broken".to_string());
    assert!(matches!(
        gather_boot_entry::<Canned>(&mut entries, Some(Err(failure))),
        Err(ReadBootEntryError::ReadVariableError(_))
    ));
    assert_eq!(entries.len(), 1);
    assert_eq!(entries[0].description(), "one");
}

#[test]
fn the_order_is_kept_in_the_global_namespace() {
    assert_eq!(boot_order_name(), VariableName::global_vendor_new("BootOrder".to_string()));
}

#[test]
fn the_later_of_two_entries_with_one_number_stands() {
    let first = BootEntry::new(1, EFILoadOption::parse(&load_option("first", true)).unwrap());
    let second = BootEntry::new(1, EFILoadOption::parse(&load_option("second", true)).unwrap());
    let menu = OrderedBootEntries::new(vec![first, second], BootOrder::new(vec![1]));

    assert_eq!(descriptions(&menu), vec!["second"]);
}

#[test]
fn list_variables_pairs_failures_with_names() {
    let store = Canned::new()
        .with("Timeout", &[0x05, 0x00])
        .with_unreadable("BootCurrent", "denied")
        .with_vanished("Gone")
        .with("BootOrder", &[0x01, 0x00]);

    let listed = store.list_variables().unwrap();

    assert_eq!(listed.len(), 3);
    assert_eq!(listed[0].as_ref().ok().unwrap().name().key(), "Timeout");
    assert_eq!(listed[0].as_ref().ok().unwrap().data(), &[0x05, 0x00]);
    let failed = listed[1].as_ref().err().unwrap();
    assert_eq!(failed.0.key(), "BootCurrent");
    assert_eq!(failed.1, "denied");
    assert_eq!(listed[2].as_ref().ok().unwrap().name().key(), "BootOrder");
}

#[test]
fn list_variables_fails_with_the_listing() {
    let mut store = Canned::new().with("Timeout", &[0x05, 0x00]);
    store.list_fails = true;

    assert_eq!(store.list_variables().err(), Some("cannot list".to_string()));
}

/// The payload of a `Boot0001` variable as a machine's firmware holds it.
const BOOT0001_PAYLOAD: [u8; 128] = [
    0x01, 0x00, 0x00, 0x00, 0x64, 0x00, 0x41, 0x00, 0x72, 0x00, 0x63, 0x00, 0x68, 0x00, 0x20, 0x00,
    0x4c, 0x00, 0x69, 0x00, 0x6e, 0x00, 0x75, 0x00, 0x78, 0x00, 0x00, 0x00, 0x04, 0x01, 0x2a, 0x00,
    0x01, 0x00, 0x00, 0x00, 0x00, 0x08, 0x00, 0x00, 0x00, 0x00, 0x00, 0x00, 0x00, 0x40, 0x1f, 0x00,
    0x00, 0x00, 0x00, 0x00, 0x56, 0xa8, 0xa9, 0xeb, 0xdd, 0xdf, 0xeb, 0x42, 0xbe, 0x76, 0x31, 0x76,
    0x0a, 0xe9, 0x0f, 0x55, 0x02, 0x02, 0x04, 0x04, 0x36, 0x00, 0x45, 0x00, 0x46, 0x00, 0x49, 0x00,
    0x5c, 0x00, 0x4c, 0x00, 0x69, 0x00, 0x6e, 0x00, 0x75, 0x00, 0x78, 0x00, 0x5c, 0x00, 0x61, 0x00,
    0x72, 0x00, 0x63, 0x00, 0x68, 0x00, 0x2d, 0x00, 0x6c, 0x00, 0x69, 0x00, 0x6e, 0x00, 0x75, 0x00,
    0x78, 0x00, 0x2e, 0x00, 0x65, 0x00, 0x66, 0x00, 0x69, 0x00, 0x00, 0x00, 0x7f, 0xff, 0x04, 0x00,
];

#[test]
fn lists_the_captured_entry() {
    let store = Canned::new()
        .with("BootOrder", &[0x01, 0x00])
        .with("Boot0001", &BOOT0001_PAYLOAD);
    let names = store.enumerate_variables().unwrap();
    assert_eq!(names[0].file_name(), "BootOrder-8be4df61-93ca-11d2-aa0d-00e098032b8c");
    assert_eq!(names[1].file_name(), "Boot0001-8be4df61-93ca-11d2-aa0d-00e098032b8c");

    let menu = store.list_boot_entries().ok().unwrap();
    let entries = menu.iter();

    assert_eq!(entries.len(), 1);
    assert_eq!(entries[0].description(), "Arch Linux");
    assert!(entries[0].is_active());
    assert_eq!(entries[0].load_option().file_path_list().len(), 2);
}

#[test]
fn an_inactive_entry_is_told() {
    let store = Canned::new()
        .with("BootOrder", &[0x02, 0x00])
        .with("Boot0002", &load_option("asleep", false));

    let menu = store.list_boot_entries().ok().unwrap();

    assert!(!menu.iter()[0].is_active());
}
