use oriac::felt::Felt;
use oriac::identifier::{IdentifierDefinition, IdentifierError, IdentifierManager};
use oriac::memory_dict::{Error as MemoryDictError, MemoryDict};
use oriac::memory_segments::{segment_used_size, MemorySegmentManager};
use oriac::relocatable::{MaybeRelocatable, RelocatableValue};
use oriac::scoped_name::ScopedName;
use oriac::validated_memory_dict::{ValidatedMemoryDict, ValidationRule};
use oriac::vm_core::Rule;

fn felt(x: u64) -> Felt {
    Felt::from_u64(x)
}

fn ival(x: u64) -> MaybeRelocatable {
    MaybeRelocatable::Int(felt(x))
}

fn addr(s: i64, o: i64) -> RelocatableValue {
    RelocatableValue::new(s, o)
}

#[test]
fn memory_is_write_once() {
    let mut mem = MemoryDict::new();
    mem.index_set(addr(0, 0), ival(7)).unwrap();
    // Writing the same value again is a no-op.
    mem.index_set(addr(0, 0), ival(7)).unwrap();
    // Writing a different value is refused and changes nothing.
    match mem.index_set(addr(0, 0), ival(8)) {
        Err(MemoryDictError::InconsistentMemory {
            addr: a,
            old_value,
            new_value,
        }) => {
            assert_eq!(a, addr(0, 0));
            assert!(old_value == ival(7));
            assert!(new_value == ival(8));
        }
        _ => panic!("expected an inconsistent-memory fault"),
    }
    let read = mem.index(&addr(0, 0)).unwrap();
    assert!(read == ival(7));
}

#[test]
fn frozen_memory_takes_no_write() {
    let mut mem = MemoryDict::new();
    mem.freeze();
    assert!(mem.is_frozen());
    assert!(matches!(
        mem.index_set(addr(0, 0), ival(1)),
        Err(MemoryDictError::MemoryFrozen)
    ));
}

#[test]
fn unknown_memory_is_reported() {
    let mem = MemoryDict::new();
    match mem.index(&addr(2, 5)) {
        Err(MemoryDictError::UnknownMemory { addr: a }) => assert_eq!(a, addr(2, 5)),
        _ => panic!("expected an unknown-memory fault"),
    }
    // The non-fault read returns the default untouched.
    let got = mem.get(&addr(2, 5), Some(ival(9))).unwrap();
    assert!(got == Some(ival(9)));
    assert!(mem.get(&addr(2, 5), None).unwrap().is_none());
}

#[test]
fn temporary_segment_relocates() {
    let mut segments = MemorySegmentManager::new(Felt::prime());
    let tmp = segments.add_temp_segment();
    assert_eq!(tmp, addr(-1, 0));
    let mut mem = MemoryDict::new();
    mem.index_set(tmp, ival(42)).unwrap();
    mem.index_set(addr(-1, 1), ival(43)).unwrap();
    // Rules only apply to temporary segments, once each.
    assert!(matches!(
        mem.add_relocation_rule(0, addr(4, 7)),
        Err(MemoryDictError::NonTemporarySegment { segment_index: 0 })
    ));
    mem.add_relocation_rule(-1, addr(4, 7)).unwrap();
    assert!(matches!(
        mem.add_relocation_rule(-1, addr(5, 0)),
        Err(MemoryDictError::DuplicatedRelocation { segment_index: -1 })
    ));
    // A value relocates through the rule with its offset added.
    let moved = mem
        .relocate_value(&MaybeRelocatable::RelocatableValue(addr(-1, 3)))
        .unwrap();
    assert!(moved == MaybeRelocatable::RelocatableValue(addr(4, 10)));
    mem.relocate_memory().unwrap();
    // Read back through the relocated addresses.
    assert!(mem.index(&addr(4, 7)).unwrap() == ival(42));
    assert!(mem.index(&addr(4, 8)).unwrap() == ival(43));
}

#[test]
fn relocate_memory_needs_live_memory() {
    let mut mem = MemoryDict::new();
    mem.add_relocation_rule(-1, addr(0, 0)).unwrap();
    mem.freeze();
    assert!(matches!(
        mem.relocate_memory(),
        Err(MemoryDictError::MemoryFrozen)
    ));
}

#[test]
fn used_sizes_follow_the_largest_offset() {
    let mut mem = MemoryDict::new();
    mem.index_set(addr(0, 0), ival(1)).unwrap();
    mem.index_set(addr(0, 9), ival(2)).unwrap();
    mem.index_set(addr(1, 3), ival(3)).unwrap();
    assert_eq!(segment_used_size(&mem, 0), 10);
    assert_eq!(segment_used_size(&mem, 1), 4);
    assert_eq!(segment_used_size(&mem, 2), 0);
}

#[test]
fn effective_sizes_are_cached() {
    let mut segments = MemorySegmentManager::new(Felt::prime());
    let a = segments.add(None);
    let b = segments.add(None);
    assert_eq!(a, addr(0, 0));
    assert_eq!(b, addr(1, 0));
    let mut mem = MemoryDict::new();
    mem.index_set(addr(0, 2), ival(5)).unwrap();
    // Effective sizes need frozen memory.
    assert!(segments.compute_effective_sizes(&mem, false).is_err());
    mem.freeze();
    segments.compute_effective_sizes(&mem, false).unwrap();
    let first = format!("{:?}", segments.segment_used_sizes);
    // Writing would now fail, and a repeat computation is a no-op even
    // with different contents on offer.
    segments.compute_effective_sizes(&mem, true).unwrap();
    let second = format!("{:?}", segments.segment_used_sizes);
    assert_eq!(first, second);
}

#[test]
fn load_data_returns_the_end() {
    let mut segments = MemorySegmentManager::new(Felt::prime());
    let base = segments.add(None);
    let mut mem = MemoryDict::new();
    let data = vec![ival(10), ival(11), ival(12)];
    let end = segments.load_data(&mut mem, base, &data).unwrap();
    assert_eq!(end, addr(0, 3));
    assert!(mem.index(&addr(0, 0)).unwrap() == ival(10));
    assert!(mem.index(&addr(0, 2)).unwrap() == ival(12));
}

#[test]
fn range_check_rule_validates_small_values() {
    let mut vmem = ValidatedMemoryDict::new(MemoryDict::new());
    vmem.add_validation_rule(
        0,
        ValidationRule::RangeCheck {
            bound: felt(1 << 16),
        },
    );
    vmem.index_set(addr(0, 0), ival(500)).unwrap();
    vmem.index_set(addr(0, 1), ival(1 << 20)).unwrap();
    assert!(vmem.validated_addresses.contains(&addr(0, 0)));
    assert!(!vmem.validated_addresses.contains(&addr(0, 1)));
}

#[test]
fn bitwise_rule_deduces_outputs() {
    let mut mem = MemoryDict::new();
    mem.index_set(addr(0, 0), ival(0b1100)).unwrap();
    mem.index_set(addr(0, 1), ival(0b1010)).unwrap();
    let rule = Rule::Bitwise;
    let and_cell = rule.deduce(&mem, &addr(0, 2)).unwrap();
    assert_eq!(and_cell.to_u64(), Some(0b1000));
    let xor_cell = rule.deduce(&mem, &addr(0, 3)).unwrap();
    assert_eq!(xor_cell.to_u64(), Some(0b0110));
    let or_cell = rule.deduce(&mem, &addr(0, 4)).unwrap();
    assert_eq!(or_cell.to_u64(), Some(0b1110));
    // Nothing is deduced for the inputs themselves, or without them.
    assert!(rule.deduce(&mem, &addr(0, 0)).is_none());
    assert!(rule.deduce(&mem, &addr(0, 7)).is_none());
}

fn name(parts: &[&str]) -> ScopedName {
    ScopedName::new(parts.iter().map(|p| p.to_string()).collect()).unwrap()
}

#[test]
fn identifiers_resolve_through_scopes_and_aliases() {
    let mut ids = IdentifierManager::new();
    ids.add_identifier(name(&["a", "b", "target"]), IdentifierDefinition::Label { pc: 9 });
    ids.add_identifier(
        name(&["alias"]),
        IdentifierDefinition::Alias {
            destination: name(&["a", "b"]),
        },
    );
    let direct = ids.get(&name(&["a", "b", "target"])).unwrap();
    assert!(matches!(
        direct.identifier_definition,
        IdentifierDefinition::Label { pc: 9 }
    ));
    assert_eq!(direct.non_parsed.len(), 0);
    // The alias is followed, and the suffix carried over.
    let via_alias = ids.get(&name(&["alias", "target"])).unwrap();
    assert!(matches!(
        via_alias.identifier_definition,
        IdentifierDefinition::Label { pc: 9 }
    ));
    // An unknown name is reported with the missing prefix.
    match ids.get(&name(&["nowhere"])) {
        Err(IdentifierError::MissingIdentifier(e)) => {
            assert_eq!(e.fullname.len(), 1);
        }
        _ => panic!("expected a missing identifier"),
    }
}

#[test]
fn cyclic_aliases_are_reported() {
    let mut ids = IdentifierManager::new();
    ids.add_identifier(
        name(&["x"]),
        IdentifierDefinition::Alias {
            destination: name(&["y"]),
        },
    );
    ids.add_identifier(
        name(&["y"]),
        IdentifierDefinition::Alias {
            destination: name(&["x"]),
        },
    );
    assert!(matches!(
        ids.get(&name(&["x"])),
        Err(IdentifierError::CyclicAliasing)
    ));
}

#[test]
fn scoped_name_behaves_like_a_path() {
    let n = name(&["a", "b", "c"]);
    assert_eq!(n.len(), 3);
    assert!(!n.is_empty());
    assert!(n.startswith(&name(&["a", "b"])));
    assert!(!n.startswith(&name(&["a", "c"])));
    let tail = n.slice(1, 3);
    assert!(tail == name(&["b", "c"]));
    assert!(ScopedName::new(vec![String::new()]).is_err());
}

#[test]
fn cell_add_usize_moves_offsets() {
    let a = MaybeRelocatable::RelocatableValue(addr(2, 5));
    match a.add_usize(4) {
        Ok(MaybeRelocatable::RelocatableValue(r)) => assert_eq!(r, addr(2, 9)),
        _ => panic!("expected an address"),
    }
    match ival(10).add_usize(4) {
        Ok(MaybeRelocatable::Int(f)) => assert_eq!(f.to_u64(), Some(14)),
        _ => panic!("expected a field element"),
    }
}
