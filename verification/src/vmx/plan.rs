//! The VMX entries that the configuration sets.

use vstd::prelude::*;
use vstd::string::*;

use crate::schema::VirtualMachine;
use crate::text::{decimal, decimal_string};
use super::{Plan, Snapshot};

verus! {

/// The characters of each key and value.
pub open spec fn entries_view(entries: Seq<(&'static str, String)>) -> Seq<(Seq<char>, Seq<char>)> {
    entries.map_values(|e: (&'static str, String)| (e.0@, e.1@))
}

/// The entries for a virtual machine: its display name, guest OS, number of
/// virtual CPUs, memory size and secure boot setting, in that order, and, for
/// a VMX file that does not exist yet, UEFI firmware (Fusion on Apple silicon
/// supports no other).
pub open spec fn planned_entries(
    display_name: Seq<char>,
    guest_os: Seq<char>,
    vcpus: u64,
    memory: u64,
    secure_boot: bool,
    is_new: bool,
) -> Seq<(Seq<char>, Seq<char>)> {
    let base = seq![
        ("displayName"@, display_name),
        ("guestOS"@, guest_os),
        ("numvcpus"@, decimal(vcpus as nat)),
        ("memsize"@, decimal(memory as nat)),
        ("uefi.secureBoot.enabled"@, if secure_boot { "TRUE"@ } else { "FALSE"@ }),
    ];
    if is_new { base.push(("firmware"@, "efi"@)) } else { base }
}

/// Each entry is set once: the planned keys are distinct, and the firmware
/// is chosen only for a VMX file that does not exist yet.
pub proof fn law_entries_distinct(
    display_name: Seq<char>,
    guest_os: Seq<char>,
    vcpus: u64,
    memory: u64,
    secure_boot: bool,
    is_new: bool,
)
    ensures
        ({
            let e = planned_entries(display_name, guest_os, vcpus, memory, secure_boot, is_new);
            &&& forall|i: int, j: int| 0 <= i < j < e.len() ==> (#[trigger] e[i]).0 != (#[trigger] e[j]).0
            &&& (exists|i: int| 0 <= i < e.len() && (#[trigger] e[i]).0 == "firmware"@) <==> is_new
        }),
{
    reveal_strlit("displayName");
    reveal_strlit("guestOS");
    reveal_strlit("numvcpus");
    reveal_strlit("memsize");
    reveal_strlit("uefi.secureBoot.enabled");
    reveal_strlit("firmware");
    let keys = seq!["displayName"@, "guestOS"@, "numvcpus"@, "memsize"@, "uefi.secureBoot.enabled"@, "firmware"@];
    assert("displayName"@[0] != "guestOS"@[0]);
    assert("displayName"@[0] != "numvcpus"@[0]);
    assert("displayName"@[0] != "memsize"@[0]);
    assert("displayName"@[0] != "uefi.secureBoot.enabled"@[0]);
    assert("displayName"@[0] != "firmware"@[0]);
    assert("guestOS"@[0] != "numvcpus"@[0]);
    assert("guestOS"@[0] != "memsize"@[0]);
    assert("guestOS"@[0] != "uefi.secureBoot.enabled"@[0]);
    assert("guestOS"@[0] != "firmware"@[0]);
    assert("numvcpus"@[0] != "memsize"@[0]);
    assert("numvcpus"@[0] != "uefi.secureBoot.enabled"@[0]);
    assert("numvcpus"@[0] != "firmware"@[0]);
    assert("memsize"@[0] != "uefi.secureBoot.enabled"@[0]);
    assert("memsize"@[0] != "firmware"@[0]);
    assert("uefi.secureBoot.enabled"@[0] != "firmware"@[0]);
    let e = planned_entries(display_name, guest_os, vcpus, memory, secure_boot, is_new);
    assert forall|i: int, j: int| 0 <= i < j < e.len() implies (#[trigger] e[i]).0 != (#[trigger] e[j]).0 by {
        assert(e[i].0 == keys[i]);
        assert(e[j].0 == keys[j]);
    }
    if is_new {
        assert(e[5].0 == "firmware"@);
    } else {
        assert forall|i: int| 0 <= i < e.len() implies (#[trigger] e[i]).0 != "firmware"@ by {
            assert(e[i].0 == keys[i]);
        }
    }
}

/// Every planned value is fixed by its configured field alone, whether or
/// not the VMX file exists: the display name and guest OS are set as
/// configured, the CPU count and memory size in decimal, secure boot to
/// `TRUE` exactly when it is configured on (else `FALSE`), and firmware to
/// `efi`; each of the first five is always set; and the entries for an
/// existing file are those for a new one without the firmware.
pub proof fn law_entries_follow_configuration(
    display_name: Seq<char>,
    guest_os: Seq<char>,
    vcpus: u64,
    memory: u64,
    secure_boot: bool,
    is_new: bool,
)
    ensures
        ({
            let e = planned_entries(display_name, guest_os, vcpus, memory, secure_boot, is_new);
            &&& forall|k: int| 0 <= k < e.len() ==> {
                &&& (#[trigger] e[k]).0 == "displayName"@ ==> e[k].1 == display_name
                &&& e[k].0 == "guestOS"@ ==> e[k].1 == guest_os
                &&& e[k].0 == "numvcpus"@ ==> e[k].1 == decimal(vcpus as nat)
                &&& e[k].0 == "memsize"@ ==> e[k].1 == decimal(memory as nat)
                &&& e[k].0 == "uefi.secureBoot.enabled"@ ==> {
                    &&& (e[k].1 == "TRUE"@ <==> secure_boot)
                    &&& (e[k].1 == "FALSE"@ <==> !secure_boot)
                }
                &&& e[k].0 == "firmware"@ ==> e[k].1 == "efi"@
            }
            &&& exists|k: int| 0 <= k < e.len() && (#[trigger] e[k]).0 == "displayName"@
            &&& exists|k: int| 0 <= k < e.len() && (#[trigger] e[k]).0 == "guestOS"@
            &&& exists|k: int| 0 <= k < e.len() && (#[trigger] e[k]).0 == "numvcpus"@
            &&& exists|k: int| 0 <= k < e.len() && (#[trigger] e[k]).0 == "memsize"@
            &&& exists|k: int| 0 <= k < e.len() && (#[trigger] e[k]).0 == "uefi.secureBoot.enabled"@
        }),
        ({
            let old_file = planned_entries(display_name, guest_os, vcpus, memory, secure_boot, false);
            let new_file = planned_entries(display_name, guest_os, vcpus, memory, secure_boot, true);
            &&& new_file.len() == old_file.len() + 1
            &&& old_file == new_file.take(old_file.len() as int)
            &&& new_file.last() == ("firmware"@, "efi"@)
        }),
{
    law_entries_distinct(display_name, guest_os, vcpus, memory, secure_boot, is_new);
    reveal_strlit("TRUE");
    reveal_strlit("FALSE");
    assert("TRUE"@[0] != "FALSE"@[0]);
    let e = planned_entries(display_name, guest_os, vcpus, memory, secure_boot, is_new);
    assert(e[0].0 == "displayName"@);
    assert(e[1].0 == "guestOS"@);
    assert(e[2].0 == "numvcpus"@);
    assert(e[3].0 == "memsize"@);
    assert(e[4].0 == "uefi.secureBoot.enabled"@);
    assert forall|k: int| 0 <= k < e.len() implies {
        &&& (#[trigger] e[k]).0 == "displayName"@ ==> e[k].1 == display_name
        &&& e[k].0 == "guestOS"@ ==> e[k].1 == guest_os
        &&& e[k].0 == "numvcpus"@ ==> e[k].1 == decimal(vcpus as nat)
        &&& e[k].0 == "memsize"@ ==> e[k].1 == decimal(memory as nat)
        &&& e[k].0 == "uefi.secureBoot.enabled"@ ==> {
            &&& (e[k].1 == "TRUE"@ <==> secure_boot)
            &&& (e[k].1 == "FALSE"@ <==> !secure_boot)
        }
        &&& e[k].0 == "firmware"@ ==> e[k].1 == "efi"@
    } by {
        if k != 0 { assert(e[0].0 != e[k].0); }
        if k != 1 { assert(e[1].0 != e[k].0 || k == 0); }
        if k != 2 { assert(e[2].0 != e[k].0 || k < 2); }
        if k != 3 { assert(e[3].0 != e[k].0 || k < 3); }
        if k != 4 { assert(e[4].0 != e[k].0 || k < 4); }
        if k < 5 && e[k].0 == "firmware"@ {
            assert(is_new && e[5].0 == "firmware"@);
        }
    }
    let old_file = planned_entries(display_name, guest_os, vcpus, memory, secure_boot, false);
    let new_file = planned_entries(display_name, guest_os, vcpus, memory, secure_boot, true);
    assert(old_file =~= new_file.take(old_file.len() as int));
}

fn push_entry(entries: &mut Vec<(&'static str, String)>, key: &'static str, value: String)
    ensures
        entries_view(final(entries)@) == entries_view(old(entries)@).push((key@, value@)),
{
    entries.push((key, value));
    assert(entries_view(entries@) =~= entries_view(old(entries)@).push((key@, value@)));
}

/// Plans the VMX entries for a virtual machine.
pub fn plan(schema: &VirtualMachine, snapshot: Snapshot) -> (plan: Plan)
    ensures
        entries_view(plan.entries@) == planned_entries(
            schema.display_name@,
            schema.guest_os@,
            schema.vcpus,
            schema.memory,
            schema.secure_boot,
            snapshot.raw_contents is None,
        ),
        plan.guest_os@ == schema.guest_os@,
        plan.snapshot == snapshot,
{
    let mut entries: Vec<(&'static str, String)> = Vec::new();
    assert(entries_view(entries@) =~= Seq::<(Seq<char>, Seq<char>)>::empty());
    push_entry(&mut entries, "displayName", schema.display_name.clone());
    push_entry(&mut entries, "guestOS", schema.guest_os.clone());
    push_entry(&mut entries, "numvcpus", decimal_string(schema.vcpus));
    push_entry(&mut entries, "memsize", decimal_string(schema.memory));
    let secure_boot = if schema.secure_boot { String::from_str("TRUE") } else { String::from_str("FALSE") };
    push_entry(&mut entries, "uefi.secureBoot.enabled", secure_boot);
    if snapshot.raw_contents.is_none() {
        // Fusion on Apple silicon requires UEFI; BIOS is unsupported
        push_entry(&mut entries, "firmware", String::from_str("efi"));
    }
    let ghost want = planned_entries(
        schema.display_name@,
        schema.guest_os@,
        schema.vcpus,
        schema.memory,
        schema.secure_boot,
        snapshot.raw_contents is None,
    );
    assert(entries_view(entries@) =~= want);
    Plan { snapshot, guest_os: schema.guest_os.clone(), entries }
}

} // verus!
