//! The udev rule that gives a device its name under `/dev`.

use vstd::prelude::*;
use crate::registry::DeviceEntry;
use crate::text::{join, joined, owned, texts};

verus! {

/// Where udev rules are kept.
pub const UDEV_RULES_DIR: &'static str = "/etc/udev/rules.d";

/// What the names of rule files start with.
pub const RULE_PREFIX: &'static str = "99-rapid-driver";

/// The conditions on the device: its vendor, its product and, if it has one, its serial number.
pub open spec fn conditions(entry: DeviceEntry) -> Seq<Seq<char>> {
    let model = seq![
        "ATTRS{idVendor}==\""@ + entry.vid@ + "\""@,
        "ATTRS{idProduct}==\""@ + entry.pid@ + "\""@,
    ];
    if entry.serial@.len() > 0 {
        model.push("ATTRS{serial}==\""@ + entry.serial@ + "\""@)
    } else {
        model
    }
}

/// The text of the rule of a device: a comment, a line for serial ports and a line for cameras.
pub open spec fn rule_text(entry: DeviceEntry) -> Seq<char> {
    let all = joined(conditions(entry), ", "@);
    let link = "SYMLINK+=\""@ + entry.name@ + "\"\n"@;
    "# rapid_driver rule for '"@ + entry.name@ + "'\n"@ + ("SUBSYSTEM==\"tty\", "@ + all + ", "@ + link)
        + ("SUBSYSTEM==\"video4linux\", "@ + all + ", ATTR{index}==\"0\", "@ + link)
}

fn condition(start: &str, value: &String) -> (r: String)
    ensures
        r@ == start@ + value@ + "\""@,
{
    let mut s: String = owned(start);
    s.append(value.as_str());
    s.append("\"");
    s
}

/// Writes the rule of a device.
pub fn generate_rule(entry: &DeviceEntry) -> (r: String)
    ensures
        r@ == rule_text(*entry),
{
    let mut list: Vec<String> = Vec::new();
    list.push(condition("ATTRS{idVendor}==\"", &entry.vid));
    list.push(condition("ATTRS{idProduct}==\"", &entry.pid));
    if entry.serial.as_str().unicode_len() > 0 {
        list.push(condition("ATTRS{serial}==\"", &entry.serial));
    }
    assert(texts(list@) =~= conditions(*entry));
    let all: String = join(&list, ", ");
    let mut link: String = owned("SYMLINK+=\"");
    link.append(entry.name.as_str());
    link.append("\"\n");
    let mut tty: String = owned("SUBSYSTEM==\"tty\", ");
    tty.append(all.as_str());
    tty.append(", ");
    tty.append(link.as_str());
    let mut video: String = owned("SUBSYSTEM==\"video4linux\", ");
    video.append(all.as_str());
    video.append(", ATTR{index}==\"0\", ");
    video.append(link.as_str());
    let mut out: String = owned("# rapid_driver rule for '");
    out.append(entry.name.as_str());
    out.append("'\n");
    out.append(tty.as_str());
    out.append(video.as_str());
    out
}

/// The name of the rule file of a device.
pub fn rule_file_name(name: &str) -> (r: String)
    ensures
        r@ == RULE_PREFIX@ + "-"@ + name@ + ".rules"@,
{
    let mut s: String = owned(RULE_PREFIX);
    s.append("-");
    s.append(name);
    s.append(".rules");
    s
}

/// A rule asks for the vendor and the product of its device, and for the serial number where the
/// device has one.
pub proof fn rules_ask_for_the_device(entry: DeviceEntry)
    ensures
        conditions(entry)[0] == "ATTRS{idVendor}==\""@ + entry.vid@ + "\""@,
        conditions(entry)[1] == "ATTRS{idProduct}==\""@ + entry.pid@ + "\""@,
        entry.serial@.len() > 0 ==> conditions(entry).len() == 3 && conditions(entry)[2]
            == "ATTRS{serial}==\""@ + entry.serial@ + "\""@,
        entry.serial@.len() == 0 ==> conditions(entry).len() == 2,
{
}

/// A rule is a comment, a line for serial ports and a line for cameras. Both lines hold all
/// conditions and link the device under its name.
pub proof fn rules_link_serial_ports_and_cameras(entry: DeviceEntry)
    ensures
        ({
            let all = joined(conditions(entry), ", "@);
            let comment = "# rapid_driver rule for '"@ + entry.name@ + "'\n"@;
            let ports = "SUBSYSTEM==\"tty\", "@ + all + ", SYMLINK+=\""@ + entry.name@ + "\"\n"@;
            let cameras = "SUBSYSTEM==\"video4linux\", "@ + all + ", ATTR{index}==\"0\", SYMLINK+=\""@
                + entry.name@ + "\"\n"@;
            rule_text(entry) == comment + ports + cameras
        }),
{
    reveal_strlit(", ");
    reveal_strlit("SYMLINK+=\"");
    reveal_strlit(", SYMLINK+=\"");
    reveal_strlit(", ATTR{index}==\"0\", ");
    reveal_strlit(", ATTR{index}==\"0\", SYMLINK+=\"");
    let all = joined(conditions(entry), ", "@);
    assert(", "@ + "SYMLINK+=\""@ =~= ", SYMLINK+=\""@);
    assert(", ATTR{index}==\"0\", "@ + "SYMLINK+=\""@ =~= ", ATTR{index}==\"0\", SYMLINK+=\""@);
    let comment = "# rapid_driver rule for '"@ + entry.name@ + "'\n"@;
    let ports = "SUBSYSTEM==\"tty\", "@ + all + (", "@ + "SYMLINK+=\""@) + entry.name@ + "\"\n"@;
    let cameras = "SUBSYSTEM==\"video4linux\", "@ + all + (", ATTR{index}==\"0\", "@
        + "SYMLINK+=\""@) + entry.name@ + "\"\n"@;
    let link = "SYMLINK+=\""@ + entry.name@ + "\"\n"@;
    assert(ports =~= "SUBSYSTEM==\"tty\", "@ + all + ", "@ + link);
    assert(cameras =~= "SUBSYSTEM==\"video4linux\", "@ + all + ", ATTR{index}==\"0\", "@ + link);
}

/// Rules are kept where udev looks for them, under names that start alike.
pub proof fn rules_are_kept_together()
    ensures
        UDEV_RULES_DIR@ == "/etc/udev/rules.d"@,
        RULE_PREFIX@ == "99-rapid-driver"@,
{
}

/// The rule of a device stands in a file that is named after it.
pub proof fn rule_files_are_named_after_their_device(name: &str, r: String)
    requires
        call_ensures(rule_file_name, (name,), r),
    ensures
        r@ == "99-rapid-driver"@ + "-"@ + name@ + ".rules"@,
{
}

} // verus!
