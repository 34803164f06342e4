use stama::salloc::{SallocEntry, SallocList};

#[test]
fn test_new() {
    let list: SallocList<SallocEntry> = SallocList::new();
    assert_eq!(list.len(), 0);
}

#[test]
fn test_push() {
    let mut list: SallocList<SallocEntry> = SallocList::new();
    let entry = SallocEntry::new();
    list.push(entry);
    assert_eq!(list.len(), 1);
}

#[test]
fn test_get() {
    let mut list: SallocList<SallocEntry> = SallocList::new();
    let entry = SallocEntry::new();
    list.push(entry);
    let entry_ref: &SallocEntry = list.get(0).unwrap();
    assert_eq!(entry_ref.preset_name, "new");
}

#[test]
fn test_get_out_of_bounds() {
    let list: SallocList<SallocEntry> = SallocList::new();
    assert!(list.get(0).is_err());
}

#[test]
fn test_start_default_entry() {
    let entry = SallocEntry::new();
    assert_eq!(entry.start(), "salloc --time=01:00:00 --job-name=new");
}

#[test]
fn test_start_full_entry() {
    let mut entry = SallocEntry::new();
    entry.preset_name = "dev".to_string();
    entry.account = "acc".to_string();
    entry.partition = "gpu".to_string();
    entry.nodes = "2".to_string();
    entry.cpus_per_node = "8".to_string();
    entry.memory = "16G".to_string();
    entry.time_limit = "02:30:00".to_string();
    entry.other_options = "--exclusive".to_string();
    assert_eq!(
        entry.start(),
        "salloc --account=acc --partition=gpu -N 2 --ntasks-per-node=8 \
--mem=16G --time=02:30:00 --exclusive --job-name=dev"
    );
}

#[test]
fn test_set_list() {
    let mut list: SallocList<SallocEntry> = SallocList::new();
    list.push(SallocEntry::new());
    let mut other = SallocEntry::new();
    other.preset_name = "kept".to_string();
    list.set_list(vec![other]);
    assert_eq!(list.len(), 1);
    assert_eq!(list.get(0).unwrap().preset_name, "kept");
}

#[test]
fn test_get_mut() {
    let mut list: SallocList<SallocEntry> = SallocList::new();
    list.push(SallocEntry::new());
    list.get_mut(0).preset_name = "renamed".to_string();
    assert_eq!(list.get(0).unwrap().preset_name, "renamed");
}
