//! The names this technology gives clusters, their commands and the general
//! statuses, and the ids it reads back from names or from numbers.

use vstd::prelude::*;
use vstd::string::*;
use crate::text::{same_text, hex};

verus! {

/// The name of a cluster this technology names.
pub open spec fn cluster_named(id: u32) -> Option<Seq<char>> {
    match id {
        0x0003 => Some("Identify"@),
        0x0004 => Some("Groups"@),
        0x0006 => Some("OnOff"@),
        0x0008 => Some("LevelControl"@),
        0x003C => Some("AdministratorCommissioning"@),
        0x0101 => Some("DoorLock"@),
        0x0102 => Some("WindowCovering"@),
        _ => None,
    }
}

/// The name of a command of a cluster this technology names.
pub open spec fn command_named(cluster: u32, id: u32) -> Option<Seq<char>> {
    match cluster {
        0x0003 => match id {
            0x00 => Some("Identify"@),
            0x40 => Some("TriggerEffect"@),
            _ => None,
        },
        0x0004 => match id {
            0x00 => Some("AddGroup"@),
            0x01 => Some("ViewGroup"@),
            0x02 => Some("GetGroupMembership"@),
            0x03 => Some("RemoveGroup"@),
            0x04 => Some("RemoveAllGroups"@),
            0x05 => Some("AddGroupIfIdentifying"@),
            _ => None,
        },
        0x0006 => match id {
            0x00 => Some("Off"@),
            0x01 => Some("On"@),
            0x02 => Some("Toggle"@),
            0x40 => Some("OffWithEffect"@),
            0x41 => Some("OnWithRecallGlobalScene"@),
            0x42 => Some("OnWithTimedOff"@),
            _ => None,
        },
        0x0008 => match id {
            0x00 => Some("MoveToLevel"@),
            0x01 => Some("Move"@),
            0x02 => Some("Step"@),
            0x03 => Some("Stop"@),
            0x04 => Some("MoveToLevelWithOnOff"@),
            0x05 => Some("MoveWithOnOff"@),
            0x06 => Some("StepWithOnOff"@),
            0x07 => Some("StopWithOnOff"@),
            _ => None,
        },
        0x003C => match id {
            0x00 => Some("OpenCommissioningWindow"@),
            0x01 => Some("OpenBasicCommissioningWindow"@),
            0x02 => Some("RevokeCommissioning"@),
            _ => None,
        },
        0x0101 => match id {
            0x00 => Some("LockDoor"@),
            0x01 => Some("UnlockDoor"@),
            0x03 => Some("UnlockWithTimeout"@),
            _ => None,
        },
        0x0102 => match id {
            0x00 => Some("UpOrOpen"@),
            0x01 => Some("DownOrClose"@),
            0x02 => Some("StopMotion"@),
            0x05 => Some("GoToLiftPercentage"@),
            0x08 => Some("GoToTiltPercentage"@),
            _ => None,
        },
        _ => None,
    }
}

/// The cluster a name names, the first in this technology's table.
pub open spec fn cluster_by_name(name: Seq<char>) -> Option<u32> {
    if name == "Identify"@ {
        Some(0x0003)
    } else if name == "Groups"@ {
        Some(0x0004)
    } else if name == "OnOff"@ {
        Some(0x0006)
    } else if name == "LevelControl"@ {
        Some(0x0008)
    } else if name == "AdministratorCommissioning"@ {
        Some(0x003C)
    } else if name == "DoorLock"@ {
        Some(0x0101)
    } else if name == "WindowCovering"@ {
        Some(0x0102)
    } else {
        None
    }
}

/// The command of a cluster a name names, the first in the cluster's table.
pub open spec fn command_by_name(cluster: u32, name: Seq<char>) -> Option<u32> {
    match cluster {
        0x0003 => {
            if name == "Identify"@ {
                Some(0x00)
            } else if name == "TriggerEffect"@ {
                Some(0x40)
            } else {
                None
            }
        },
        0x0004 => {
            if name == "AddGroup"@ {
                Some(0x00)
            } else if name == "ViewGroup"@ {
                Some(0x01)
            } else if name == "GetGroupMembership"@ {
                Some(0x02)
            } else if name == "RemoveGroup"@ {
                Some(0x03)
            } else if name == "RemoveAllGroups"@ {
                Some(0x04)
            } else if name == "AddGroupIfIdentifying"@ {
                Some(0x05)
            } else {
                None
            }
        },
        0x0006 => {
            if name == "Off"@ {
                Some(0x00)
            } else if name == "On"@ {
                Some(0x01)
            } else if name == "Toggle"@ {
                Some(0x02)
            } else if name == "OffWithEffect"@ {
                Some(0x40)
            } else if name == "OnWithRecallGlobalScene"@ {
                Some(0x41)
            } else if name == "OnWithTimedOff"@ {
                Some(0x42)
            } else {
                None
            }
        },
        0x0008 => {
            if name == "MoveToLevel"@ {
                Some(0x00)
            } else if name == "Move"@ {
                Some(0x01)
            } else if name == "Step"@ {
                Some(0x02)
            } else if name == "Stop"@ {
                Some(0x03)
            } else if name == "MoveToLevelWithOnOff"@ {
                Some(0x04)
            } else if name == "MoveWithOnOff"@ {
                Some(0x05)
            } else if name == "StepWithOnOff"@ {
                Some(0x06)
            } else if name == "StopWithOnOff"@ {
                Some(0x07)
            } else {
                None
            }
        },
        0x003C => {
            if name == "OpenCommissioningWindow"@ {
                Some(0x00)
            } else if name == "OpenBasicCommissioningWindow"@ {
                Some(0x01)
            } else if name == "RevokeCommissioning"@ {
                Some(0x02)
            } else {
                None
            }
        },
        0x0101 => {
            if name == "LockDoor"@ {
                Some(0x00)
            } else if name == "UnlockDoor"@ {
                Some(0x01)
            } else if name == "UnlockWithTimeout"@ {
                Some(0x03)
            } else {
                None
            }
        },
        0x0102 => {
            if name == "UpOrOpen"@ {
                Some(0x00)
            } else if name == "DownOrClose"@ {
                Some(0x01)
            } else if name == "StopMotion"@ {
                Some(0x02)
            } else if name == "GoToLiftPercentage"@ {
                Some(0x05)
            } else if name == "GoToTiltPercentage"@ {
                Some(0x08)
            } else {
                None
            }
        },
        _ => None,
    }
}

/// The name of a general status the Interaction Model defines.
pub open spec fn status_named(code: u8) -> Option<Seq<char>> {
    match code {
        0x00 => Some("SUCCESS"@),
        0x01 => Some("FAILURE"@),
        0x7D => Some("INVALID_SUBSCRIPTION"@),
        0x7E => Some("UNSUPPORTED_ACCESS"@),
        0x7F => Some("UNSUPPORTED_ENDPOINT"@),
        0x80 => Some("INVALID_ACTION"@),
        0x81 => Some("UNSUPPORTED_COMMAND"@),
        0x85 => Some("INVALID_COMMAND"@),
        0x86 => Some("UNSUPPORTED_ATTRIBUTE"@),
        0x87 => Some("CONSTRAINT_ERROR"@),
        0x88 => Some("UNSUPPORTED_WRITE"@),
        0x89 => Some("RESOURCE_EXHAUSTED"@),
        0x8B => Some("NOT_FOUND"@),
        0x8C => Some("UNREPORTABLE_ATTRIBUTE"@),
        0x8D => Some("INVALID_DATA_TYPE"@),
        0x8F => Some("UNSUPPORTED_READ"@),
        0x92 => Some("DATA_VERSION_MISMATCH"@),
        0x94 => Some("TIMEOUT"@),
        0x9C => Some("BUSY"@),
        0xC3 => Some("UNSUPPORTED_CLUSTER"@),
        0xC5 => Some("NO_UPSTREAM_SUBSCRIPTION"@),
        0xC6 => Some("NEEDS_TIMED_INTERACTION"@),
        0xC7 => Some("UNSUPPORTED_EVENT"@),
        0xC8 => Some("PATHS_EXHAUSTED"@),
        0xC9 => Some("TIMED_REQUEST_MISMATCH"@),
        0xCA => Some("FAILSAFE_REQUIRED"@),
        0xCB => Some("INVALID_IN_STATE"@),
        0xCC => Some("NO_COMMAND_RESPONSE"@),
        _ => None,
    }
}

/// The general status a name names.
pub open spec fn status_by_name(name: Seq<char>) -> Option<u8> {
    if name == "SUCCESS"@ {
        Some(0x00)
    } else if name == "FAILURE"@ {
        Some(0x01)
    } else if name == "INVALID_SUBSCRIPTION"@ {
        Some(0x7D)
    } else if name == "UNSUPPORTED_ACCESS"@ {
        Some(0x7E)
    } else if name == "UNSUPPORTED_ENDPOINT"@ {
        Some(0x7F)
    } else if name == "INVALID_ACTION"@ {
        Some(0x80)
    } else if name == "UNSUPPORTED_COMMAND"@ {
        Some(0x81)
    } else if name == "INVALID_COMMAND"@ {
        Some(0x85)
    } else if name == "UNSUPPORTED_ATTRIBUTE"@ {
        Some(0x86)
    } else if name == "CONSTRAINT_ERROR"@ {
        Some(0x87)
    } else if name == "UNSUPPORTED_WRITE"@ {
        Some(0x88)
    } else if name == "RESOURCE_EXHAUSTED"@ {
        Some(0x89)
    } else if name == "NOT_FOUND"@ {
        Some(0x8B)
    } else if name == "UNREPORTABLE_ATTRIBUTE"@ {
        Some(0x8C)
    } else if name == "INVALID_DATA_TYPE"@ {
        Some(0x8D)
    } else if name == "UNSUPPORTED_READ"@ {
        Some(0x8F)
    } else if name == "DATA_VERSION_MISMATCH"@ {
        Some(0x92)
    } else if name == "TIMEOUT"@ {
        Some(0x94)
    } else if name == "BUSY"@ {
        Some(0x9C)
    } else if name == "UNSUPPORTED_CLUSTER"@ {
        Some(0xC3)
    } else if name == "NO_UPSTREAM_SUBSCRIPTION"@ {
        Some(0xC5)
    } else if name == "NEEDS_TIMED_INTERACTION"@ {
        Some(0xC6)
    } else if name == "UNSUPPORTED_EVENT"@ {
        Some(0xC7)
    } else if name == "PATHS_EXHAUSTED"@ {
        Some(0xC8)
    } else if name == "TIMED_REQUEST_MISMATCH"@ {
        Some(0xC9)
    } else if name == "FAILSAFE_REQUIRED"@ {
        Some(0xCA)
    } else if name == "INVALID_IN_STATE"@ {
        Some(0xCB)
    } else if name == "NO_COMMAND_RESPONSE"@ {
        Some(0xCC)
    } else {
        None
    }
}

/// The name of a cluster this technology names.
pub fn known_cluster(id: u32) -> (r: Option<&'static str>)
    ensures
        match r {
            Some(name) => cluster_named(id) == Some(name@),
            None => cluster_named(id) is None,
        },
{
    match id {
        0x0003 => Some("Identify"),
        0x0004 => Some("Groups"),
        0x0006 => Some("OnOff"),
        0x0008 => Some("LevelControl"),
        0x003C => Some("AdministratorCommissioning"),
        0x0101 => Some("DoorLock"),
        0x0102 => Some("WindowCovering"),
        _ => None,
    }
}

/// The name of a command of a cluster this technology names.
pub fn known_command(cluster: u32, id: u32) -> (r: Option<&'static str>)
    ensures
        match r {
            Some(name) => command_named(cluster, id) == Some(name@),
            None => command_named(cluster, id) is None,
        },
{
    match cluster {
        0x0003 => match id {
            0x00 => Some("Identify"),
            0x40 => Some("TriggerEffect"),
            _ => None,
        },
        0x0004 => match id {
            0x00 => Some("AddGroup"),
            0x01 => Some("ViewGroup"),
            0x02 => Some("GetGroupMembership"),
            0x03 => Some("RemoveGroup"),
            0x04 => Some("RemoveAllGroups"),
            0x05 => Some("AddGroupIfIdentifying"),
            _ => None,
        },
        0x0006 => match id {
            0x00 => Some("Off"),
            0x01 => Some("On"),
            0x02 => Some("Toggle"),
            0x40 => Some("OffWithEffect"),
            0x41 => Some("OnWithRecallGlobalScene"),
            0x42 => Some("OnWithTimedOff"),
            _ => None,
        },
        0x0008 => match id {
            0x00 => Some("MoveToLevel"),
            0x01 => Some("Move"),
            0x02 => Some("Step"),
            0x03 => Some("Stop"),
            0x04 => Some("MoveToLevelWithOnOff"),
            0x05 => Some("MoveWithOnOff"),
            0x06 => Some("StepWithOnOff"),
            0x07 => Some("StopWithOnOff"),
            _ => None,
        },
        0x003C => match id {
            0x00 => Some("OpenCommissioningWindow"),
            0x01 => Some("OpenBasicCommissioningWindow"),
            0x02 => Some("RevokeCommissioning"),
            _ => None,
        },
        0x0101 => match id {
            0x00 => Some("LockDoor"),
            0x01 => Some("UnlockDoor"),
            0x03 => Some("UnlockWithTimeout"),
            _ => None,
        },
        0x0102 => match id {
            0x00 => Some("UpOrOpen"),
            0x01 => Some("DownOrClose"),
            0x02 => Some("StopMotion"),
            0x05 => Some("GoToLiftPercentage"),
            0x08 => Some("GoToTiltPercentage"),
            _ => None,
        },
        _ => None,
    }
}

/// The cluster a name names, where this technology names it.
pub fn cluster_named_by(name: &str) -> (r: Option<u32>)
    ensures
        r == cluster_by_name(name@),
{
    if same_text(name, "Identify") {
        Some(0x0003)
    } else if same_text(name, "Groups") {
        Some(0x0004)
    } else if same_text(name, "OnOff") {
        Some(0x0006)
    } else if same_text(name, "LevelControl") {
        Some(0x0008)
    } else if same_text(name, "AdministratorCommissioning") {
        Some(0x003C)
    } else if same_text(name, "DoorLock") {
        Some(0x0101)
    } else if same_text(name, "WindowCovering") {
        Some(0x0102)
    } else {
        None
    }
}

/// The command of `cluster` a name names, where this technology names it.
pub fn command_named_by(cluster: u32, name: &str) -> (r: Option<u32>)
    ensures
        r == command_by_name(cluster, name@),
{
    match cluster {
        0x0003 => {
            if same_text(name, "Identify") {
                Some(0x00)
            } else if same_text(name, "TriggerEffect") {
                Some(0x40)
            } else {
                None
            }
        },
        0x0004 => {
            if same_text(name, "AddGroup") {
                Some(0x00)
            } else if same_text(name, "ViewGroup") {
                Some(0x01)
            } else if same_text(name, "GetGroupMembership") {
                Some(0x02)
            } else if same_text(name, "RemoveGroup") {
                Some(0x03)
            } else if same_text(name, "RemoveAllGroups") {
                Some(0x04)
            } else if same_text(name, "AddGroupIfIdentifying") {
                Some(0x05)
            } else {
                None
            }
        },
        0x0006 => {
            if same_text(name, "Off") {
                Some(0x00)
            } else if same_text(name, "On") {
                Some(0x01)
            } else if same_text(name, "Toggle") {
                Some(0x02)
            } else if same_text(name, "OffWithEffect") {
                Some(0x40)
            } else if same_text(name, "OnWithRecallGlobalScene") {
                Some(0x41)
            } else if same_text(name, "OnWithTimedOff") {
                Some(0x42)
            } else {
                None
            }
        },
        0x0008 => {
            if same_text(name, "MoveToLevel") {
                Some(0x00)
            } else if same_text(name, "Move") {
                Some(0x01)
            } else if same_text(name, "Step") {
                Some(0x02)
            } else if same_text(name, "Stop") {
                Some(0x03)
            } else if same_text(name, "MoveToLevelWithOnOff") {
                Some(0x04)
            } else if same_text(name, "MoveWithOnOff") {
                Some(0x05)
            } else if same_text(name, "StepWithOnOff") {
                Some(0x06)
            } else if same_text(name, "StopWithOnOff") {
                Some(0x07)
            } else {
                None
            }
        },
        0x003C => {
            if same_text(name, "OpenCommissioningWindow") {
                Some(0x00)
            } else if same_text(name, "OpenBasicCommissioningWindow") {
                Some(0x01)
            } else if same_text(name, "RevokeCommissioning") {
                Some(0x02)
            } else {
                None
            }
        },
        0x0101 => {
            if same_text(name, "LockDoor") {
                Some(0x00)
            } else if same_text(name, "UnlockDoor") {
                Some(0x01)
            } else if same_text(name, "UnlockWithTimeout") {
                Some(0x03)
            } else {
                None
            }
        },
        0x0102 => {
            if same_text(name, "UpOrOpen") {
                Some(0x00)
            } else if same_text(name, "DownOrClose") {
                Some(0x01)
            } else if same_text(name, "StopMotion") {
                Some(0x02)
            } else if same_text(name, "GoToLiftPercentage") {
                Some(0x05)
            } else if same_text(name, "GoToTiltPercentage") {
                Some(0x08)
            } else {
                None
            }
        },
        _ => None,
    }
}

/// The name of a general status the Interaction Model defines.
pub fn known_status(code: u8) -> (r: Option<&'static str>)
    ensures
        match r {
            Some(name) => status_named(code) == Some(name@),
            None => status_named(code) is None,
        },
{
    match code {
        0x00 => Some("SUCCESS"),
        0x01 => Some("FAILURE"),
        0x7D => Some("INVALID_SUBSCRIPTION"),
        0x7E => Some("UNSUPPORTED_ACCESS"),
        0x7F => Some("UNSUPPORTED_ENDPOINT"),
        0x80 => Some("INVALID_ACTION"),
        0x81 => Some("UNSUPPORTED_COMMAND"),
        0x85 => Some("INVALID_COMMAND"),
        0x86 => Some("UNSUPPORTED_ATTRIBUTE"),
        0x87 => Some("CONSTRAINT_ERROR"),
        0x88 => Some("UNSUPPORTED_WRITE"),
        0x89 => Some("RESOURCE_EXHAUSTED"),
        0x8B => Some("NOT_FOUND"),
        0x8C => Some("UNREPORTABLE_ATTRIBUTE"),
        0x8D => Some("INVALID_DATA_TYPE"),
        0x8F => Some("UNSUPPORTED_READ"),
        0x92 => Some("DATA_VERSION_MISMATCH"),
        0x94 => Some("TIMEOUT"),
        0x9C => Some("BUSY"),
        0xC3 => Some("UNSUPPORTED_CLUSTER"),
        0xC5 => Some("NO_UPSTREAM_SUBSCRIPTION"),
        0xC6 => Some("NEEDS_TIMED_INTERACTION"),
        0xC7 => Some("UNSUPPORTED_EVENT"),
        0xC8 => Some("PATHS_EXHAUSTED"),
        0xC9 => Some("TIMED_REQUEST_MISMATCH"),
        0xCA => Some("FAILSAFE_REQUIRED"),
        0xCB => Some("INVALID_IN_STATE"),
        0xCC => Some("NO_COMMAND_RESPONSE"),
        _ => None,
    }
}

/// The general status a name names.
pub fn status_named_by(name: &str) -> (r: Option<u8>)
    ensures
        r == status_by_name(name@),
{
    if same_text(name, "SUCCESS") {
        Some(0x00)
    } else if same_text(name, "FAILURE") {
        Some(0x01)
    } else if same_text(name, "INVALID_SUBSCRIPTION") {
        Some(0x7D)
    } else if same_text(name, "UNSUPPORTED_ACCESS") {
        Some(0x7E)
    } else if same_text(name, "UNSUPPORTED_ENDPOINT") {
        Some(0x7F)
    } else if same_text(name, "INVALID_ACTION") {
        Some(0x80)
    } else if same_text(name, "UNSUPPORTED_COMMAND") {
        Some(0x81)
    } else if same_text(name, "INVALID_COMMAND") {
        Some(0x85)
    } else if same_text(name, "UNSUPPORTED_ATTRIBUTE") {
        Some(0x86)
    } else if same_text(name, "CONSTRAINT_ERROR") {
        Some(0x87)
    } else if same_text(name, "UNSUPPORTED_WRITE") {
        Some(0x88)
    } else if same_text(name, "RESOURCE_EXHAUSTED") {
        Some(0x89)
    } else if same_text(name, "NOT_FOUND") {
        Some(0x8B)
    } else if same_text(name, "UNREPORTABLE_ATTRIBUTE") {
        Some(0x8C)
    } else if same_text(name, "INVALID_DATA_TYPE") {
        Some(0x8D)
    } else if same_text(name, "UNSUPPORTED_READ") {
        Some(0x8F)
    } else if same_text(name, "DATA_VERSION_MISMATCH") {
        Some(0x92)
    } else if same_text(name, "TIMEOUT") {
        Some(0x94)
    } else if same_text(name, "BUSY") {
        Some(0x9C)
    } else if same_text(name, "UNSUPPORTED_CLUSTER") {
        Some(0xC3)
    } else if same_text(name, "NO_UPSTREAM_SUBSCRIPTION") {
        Some(0xC5)
    } else if same_text(name, "NEEDS_TIMED_INTERACTION") {
        Some(0xC6)
    } else if same_text(name, "UNSUPPORTED_EVENT") {
        Some(0xC7)
    } else if same_text(name, "PATHS_EXHAUSTED") {
        Some(0xC8)
    } else if same_text(name, "TIMED_REQUEST_MISMATCH") {
        Some(0xC9)
    } else if same_text(name, "FAILSAFE_REQUIRED") {
        Some(0xCA)
    } else if same_text(name, "INVALID_IN_STATE") {
        Some(0xCB)
    } else if same_text(name, "NO_COMMAND_RESPONSE") {
        Some(0xCC)
    } else {
        None
    }
}

/// The value of `c` as a digit: `0`-`9`, then `a`-`z` or `A`-`Z` from ten; 36
/// for any other character, which no radix admits.
pub open spec fn digit_value(c: char) -> nat {
    let u = c as u32;
    if 48 <= u <= 57 {
        (u - 48) as nat
    } else if 97 <= u <= 122 {
        (u - 87) as nat
    } else if 65 <= u <= 90 {
        (u - 55) as nat
    } else {
        36
    }
}

/// The number `digits` write in `radix`, where each is a digit of it.
pub open spec fn digits_value(digits: Seq<char>, radix: nat) -> Option<nat>
    decreases digits.len(),
{
    if digits.len() == 0 {
        Some(0)
    } else {
        match digits_value(digits.drop_last(), radix) {
            Some(v) => if digit_value(digits.last()) < radix {
                Some(v * radix + digit_value(digits.last()))
            } else {
                None
            },
            None => None,
        }
    }
}

/// An unsigned number as the standard library reads one from text in
/// `radix`: an optional `+`, then at least one digit, and no more than `max`.
pub open spec fn parsed(text: Seq<char>, radix: nat, max: nat) -> Option<nat> {
    let digits = if text.len() > 0 && text[0] == '+' { text.drop_first() } else { text };
    if digits.len() == 0 {
        None
    } else {
        match digits_value(digits, radix) {
            Some(v) => if v <= max {
                Some(v)
            } else {
                None
            },
            None => None,
        }
    }
}

/// `0x1F` or `31` as a number.
pub open spec fn id_of(text: Seq<char>) -> Option<u32> {
    let n = if text.len() >= 2 && text[0] == '0' && text[1] == 'x' {
        parsed(text.skip(2), 16, 0xFFFF_FFFF)
    } else {
        parsed(text, 10, 0xFFFF_FFFF)
    };
    match n {
        Some(v) => Some(v as u32),
        None => None,
    }
}

/// The value of `c` as a digit.
fn digit_of(c: char) -> (d: u32)
    ensures
        d == digit_value(c),
{
    let u = c as u32;
    if 48 <= u && u <= 57 {
        u - 48
    } else if 97 <= u && u <= 122 {
        u - 87
    } else if 65 <= u && u <= 90 {
        u - 55
    } else {
        36
    }
}

/// The unsigned number the text from character `from` on writes in `radix`,
/// no more than `max`.
pub fn parse_number(text: &str, from: usize, radix: u32, max: u64) -> (r: Option<u64>)
    requires
        from <= text@.len(),
        2 <= radix <= 36,
        max <= 0xFFFF_FFFF,
    ensures
        match parsed(text@.skip(from as int), radix as nat, max as nat) {
            Some(v) => r == Some(v as u64),
            None => r is None,
        },
{
    let ghost s = text@.skip(from as int);
    let len = text.unicode_len();
    let mut start = from;
    if from < len && text.get_char(from) == '+' {
        start = from + 1;
    }
    let ghost digits = if s.len() > 0 && s[0] == '+' { s.drop_first() } else { s };
    assert(digits =~= text@.skip(start as int));
    if start >= len {
        return None;
    }
    let mut ok = true;
    let mut over = false;
    let mut v: u64 = 0;
    let mut i = start;
    assert(digits.take(0) =~= Seq::<char>::empty());
    while i < len
        invariant
            start <= i <= len,
            len == text@.len(),
            digits == text@.skip(start as int),
            max <= 0xFFFF_FFFF,
            2 <= radix <= 36,
            v <= max,
            match digits_value(digits.take(i - start), radix as nat) {
                Some(x) => ok && (over <==> x > max) && (!over ==> v == x),
                None => !ok,
            },
        decreases len - i,
    {
        let c = text.get_char(i);
        let d = digit_of(c);
        proof {
            let k = i - start;
            assert(digits.take(k + 1).drop_last() =~= digits.take(k));
            assert(digits.take(k + 1).last() == c);
        }
        if ok {
            if d >= radix {
                ok = false;
            } else if !over {
                assert(v * radix + d <= 0xFFFF_FFFF * 36 + 36) by (nonlinear_arith)
                    requires
                        v <= 0xFFFF_FFFF,
                        radix <= 36,
                        d < 36,
                ;
                let next = v * (radix as u64) + d as u64;
                if next > max {
                    over = true;
                } else {
                    v = next;
                }
            } else {
                proof {
                    let x = digits_value(digits.take(i - start), radix as nat).unwrap();
                    assert(x * radix + d >= x) by (nonlinear_arith)
                        requires
                            radix >= 2,
                            x >= 0,
                            d >= 0,
                    ;
                }
            }
        }
        i = i + 1;
    }
    assert(digits.take(len - start) =~= digits);
    if ok && !over {
        Some(v)
    } else {
        None
    }
}

/// `0x1F` or `31` as a number.
pub fn parse_id(text: &str) -> (r: Option<u32>)
    ensures
        r == id_of(text@),
{
    let len = text.unicode_len();
    let hex = len >= 2 && text.get_char(0) == '0' && text.get_char(1) == 'x';
    let n = if hex {
        parse_number(text, 2, 16, 0xFFFF_FFFF)
    } else {
        assert(text@.skip(0) =~= text@);
        parse_number(text, 0, 10, 0xFFFF_FFFF)
    };
    match n {
        Some(v) => Some(v as u32),
        None => None,
    }
}

/// A cluster's name, or its id in hex where this technology has no name.
pub open spec fn cluster_text(id: u32) -> Seq<char> {
    match cluster_named(id) {
        Some(name) => name,
        None => "0x"@ + hex(id as nat, 4),
    }
}

/// A command's name, or its id in hex where this technology has no name.
pub open spec fn command_text(cluster: u32, id: u32) -> Seq<char> {
    match command_named(cluster, id) {
        Some(name) => name,
        None => "0x"@ + hex(id as nat, 2),
    }
}

/// The cluster's name, or its hex id where this technology has no name.
pub fn cluster_name(id: u32) -> (s: String)
    ensures
        s@ == cluster_text(id),
{
    match known_cluster(id) {
        Some(name) => String::from_str(name),
        None => {
            let mut s = String::from_str("0x");
            crate::text::push_hex(&mut s, id as u64, 4);
            s
        },
    }
}

/// The command's name, or its hex id where this technology has no name.
pub fn command_name(cluster: u32, id: u32) -> (s: String)
    ensures
        s@ == command_text(cluster, id),
{
    match known_command(cluster, id) {
        Some(name) => String::from_str(name),
        None => {
            let mut s = String::from_str("0x");
            crate::text::push_hex(&mut s, id as u64, 2);
            s
        },
    }
}

/// A digit character reads back as its digit.
pub proof fn lemma_digit_char(d: nat)
    requires
        d < 16,
    ensures
        digit_value(crate::text::digit_char(d)) == d,
        crate::text::digit_char(d) != '+',
        crate::text::digit_char(d) != '/',
{
}

/// A number written in decimal reads back as itself.
pub proof fn lemma_decimal_digits(n: nat)
    ensures
        digits_value(crate::text::decimal(n), 10) == Some(n),
        crate::text::decimal(n).len() > 0,
        crate::text::decimal(n)[0] != '+',
    decreases n,
{
    let s = crate::text::decimal(n);
    if n < 10 {
        lemma_digit_char(n);
        assert(s.drop_last() =~= Seq::<char>::empty());
    } else {
        lemma_decimal_digits(n / 10);
        lemma_digit_char(n % 10);
        assert(s.drop_last() =~= crate::text::decimal(n / 10));
        assert(s.last() == crate::text::digit_char(n % 10));
        assert(digits_value(s.drop_last(), 10) == Some(n / 10));
        assert(digit_value(s.last()) == n % 10);
        assert(digits_value(s, 10) == Some((n / 10) * 10 + n % 10));
        assert((n / 10) * 10 + n % 10 == n);
    }
}

/// A number written in hex reads back as itself.
pub proof fn lemma_hex_digits(n: nat, width: nat)
    ensures
        digits_value(hex(n, width), 16) == Some(n),
        hex(n, width).len() > 0,
        hex(n, width)[0] != '+',
        forall|i: int| 0 <= i < hex(n, width).len() ==> hex(n, width)[i] != '/',
    decreases n + width,
{
    let s = hex(n, width);
    if n < 16 && width <= 1 {
        lemma_digit_char(n);
        assert(s.drop_last() =~= Seq::<char>::empty());
    } else {
        let w = if width > 0 { (width - 1) as nat } else { 0 };
        lemma_hex_digits(n / 16, w);
        lemma_digit_char(n % 16);
        assert(s.drop_last() =~= hex(n / 16, w));
        assert(s.last() == crate::text::digit_char(n % 16));
        assert(digits_value(s.drop_last(), 16) == Some(n / 16));
        assert(digit_value(s.last()) == n % 16);
        assert(digits_value(s, 16) == Some((n / 16) * 16 + n % 16));
        assert((n / 16) * 16 + n % 16 == n);
    }
}

/// A number written in decimal parses back as itself.
pub proof fn lemma_parse_decimal(n: nat, max: nat)
    requires
        n <= max,
    ensures
        parsed(crate::text::decimal(n), 10, max) == Some(n),
{
    lemma_decimal_digits(n);
}

/// `0x` and a number written in hex read back as the number.
pub proof fn lemma_id_of_hex(n: u32, width: nat)
    ensures
        id_of("0x"@ + hex(n as nat, width)) == Some(n),
{
    reveal_strlit("0x");
    let text = "0x"@ + hex(n as nat, width);
    lemma_hex_digits(n as nat, width);
    assert(text.skip(2) =~= hex(n as nat, width));
}

/// A general status by name, or by hex where it has none.
pub open spec fn status_text(code: u8) -> Seq<char> {
    match status_named(code) {
        Some(name) => name,
        None => "0x"@ + hex(code as nat, 2),
    }
}

/// A cluster's text reads back as the cluster: a name by the table, a hex
/// id as the number.
pub proof fn lemma_cluster_text_reads_back(id: u32)
    ensures
        cluster_by_name(cluster_text(id)) is Some ==> cluster_by_name(cluster_text(id)) == Some(id),
        cluster_by_name(cluster_text(id)) is None ==> id_of(cluster_text(id)) == Some(id),
{
    reveal_strlit("0x");
    reveal_strlit("Identify");
    reveal_strlit("Groups");
    reveal_strlit("OnOff");
    reveal_strlit("LevelControl");
    reveal_strlit("AdministratorCommissioning");
    reveal_strlit("DoorLock");
    reveal_strlit("WindowCovering");
    assert("Identify"@.len() == 8);
    assert("Identify"@[0] != '0');
    assert("Groups"@.len() == 6);
    assert("Groups"@[0] != '0');
    assert("OnOff"@.len() == 5);
    assert("OnOff"@[0] != '0');
    assert("LevelControl"@.len() == 12);
    assert("LevelControl"@[0] != '0');
    assert("AdministratorCommissioning"@.len() == 26);
    assert("AdministratorCommissioning"@[0] != '0');
    assert("DoorLock"@.len() == 8);
    assert("DoorLock"@[0] != '0');
    assert("WindowCovering"@.len() == 14);
    assert("WindowCovering"@[0] != '0');
    assert("Identify"@[0] != "DoorLock"@[0]);
    if cluster_named(id) is None {
        let text = "0x"@ + hex(id as nat, 4);
        assert(text[0] == '0');
        lemma_id_of_hex(id, 4);
    }
}

/// A command's text reads back as the command: a name by the cluster's
/// table, a hex id as the number.
pub proof fn lemma_command_text_reads_back(cluster: u32, id: u32)
    ensures
        command_by_name(cluster, command_text(cluster, id)) is Some ==> command_by_name(cluster, command_text(cluster, id)) == Some(id),
        command_by_name(cluster, command_text(cluster, id)) is None ==> id_of(command_text(cluster, id)) == Some(id),
{
    reveal_strlit("0x");
    if command_named(cluster, id) is None {
        let text = "0x"@ + hex(id as nat, 2);
        assert(text[0] == '0');
        lemma_id_of_hex(id, 2);
    }
    match cluster {
        0x0003 => {
            reveal_strlit("Identify");
            reveal_strlit("TriggerEffect");
            assert("Identify"@.len() == 8);
            assert("Identify"@[0] != '0');
            assert("TriggerEffect"@.len() == 13);
            assert("TriggerEffect"@[0] != '0');
        },
        0x0004 => {
            reveal_strlit("AddGroup");
            reveal_strlit("ViewGroup");
            reveal_strlit("GetGroupMembership");
            reveal_strlit("RemoveGroup");
            reveal_strlit("RemoveAllGroups");
            reveal_strlit("AddGroupIfIdentifying");
            assert("AddGroup"@.len() == 8);
            assert("AddGroup"@[0] != '0');
            assert("ViewGroup"@.len() == 9);
            assert("ViewGroup"@[0] != '0');
            assert("GetGroupMembership"@.len() == 18);
            assert("GetGroupMembership"@[0] != '0');
            assert("RemoveGroup"@.len() == 11);
            assert("RemoveGroup"@[0] != '0');
            assert("RemoveAllGroups"@.len() == 15);
            assert("RemoveAllGroups"@[0] != '0');
            assert("AddGroupIfIdentifying"@.len() == 21);
            assert("AddGroupIfIdentifying"@[0] != '0');
        },
        0x0006 => {
            reveal_strlit("Off");
            reveal_strlit("On");
            reveal_strlit("Toggle");
            reveal_strlit("OffWithEffect");
            reveal_strlit("OnWithRecallGlobalScene");
            reveal_strlit("OnWithTimedOff");
            assert("Off"@.len() == 3);
            assert("Off"@[0] != '0');
            assert("On"@.len() == 2);
            assert("On"@[0] != '0');
            assert("Toggle"@.len() == 6);
            assert("Toggle"@[0] != '0');
            assert("OffWithEffect"@.len() == 13);
            assert("OffWithEffect"@[0] != '0');
            assert("OnWithRecallGlobalScene"@.len() == 23);
            assert("OnWithRecallGlobalScene"@[0] != '0');
            assert("OnWithTimedOff"@.len() == 14);
            assert("OnWithTimedOff"@[0] != '0');
        },
        0x0008 => {
            reveal_strlit("MoveToLevel");
            reveal_strlit("Move");
            reveal_strlit("Step");
            reveal_strlit("Stop");
            reveal_strlit("MoveToLevelWithOnOff");
            reveal_strlit("MoveWithOnOff");
            reveal_strlit("StepWithOnOff");
            reveal_strlit("StopWithOnOff");
            assert("MoveToLevel"@.len() == 11);
            assert("MoveToLevel"@[0] != '0');
            assert("Move"@.len() == 4);
            assert("Move"@[0] != '0');
            assert("Step"@.len() == 4);
            assert("Step"@[0] != '0');
            assert("Stop"@.len() == 4);
            assert("Stop"@[0] != '0');
            assert("MoveToLevelWithOnOff"@.len() == 20);
            assert("MoveToLevelWithOnOff"@[0] != '0');
            assert("MoveWithOnOff"@.len() == 13);
            assert("MoveWithOnOff"@[0] != '0');
            assert("StepWithOnOff"@.len() == 13);
            assert("StepWithOnOff"@[0] != '0');
            assert("StopWithOnOff"@.len() == 13);
            assert("StopWithOnOff"@[0] != '0');
            assert("Move"@[0] != "Step"@[0]);
            assert("Move"@[0] != "Stop"@[0]);
            assert("Step"@[2] != "Stop"@[2]);
            assert("MoveWithOnOff"@[0] != "StepWithOnOff"@[0]);
            assert("MoveWithOnOff"@[0] != "StopWithOnOff"@[0]);
            assert("StepWithOnOff"@[2] != "StopWithOnOff"@[2]);
        },
        0x003C => {
            reveal_strlit("OpenCommissioningWindow");
            reveal_strlit("OpenBasicCommissioningWindow");
            reveal_strlit("RevokeCommissioning");
            assert("OpenCommissioningWindow"@.len() == 23);
            assert("OpenCommissioningWindow"@[0] != '0');
            assert("OpenBasicCommissioningWindow"@.len() == 28);
            assert("OpenBasicCommissioningWindow"@[0] != '0');
            assert("RevokeCommissioning"@.len() == 19);
            assert("RevokeCommissioning"@[0] != '0');
        },
        0x0101 => {
            reveal_strlit("LockDoor");
            reveal_strlit("UnlockDoor");
            reveal_strlit("UnlockWithTimeout");
            assert("LockDoor"@.len() == 8);
            assert("LockDoor"@[0] != '0');
            assert("UnlockDoor"@.len() == 10);
            assert("UnlockDoor"@[0] != '0');
            assert("UnlockWithTimeout"@.len() == 17);
            assert("UnlockWithTimeout"@[0] != '0');
        },
        0x0102 => {
            reveal_strlit("UpOrOpen");
            reveal_strlit("DownOrClose");
            reveal_strlit("StopMotion");
            reveal_strlit("GoToLiftPercentage");
            reveal_strlit("GoToTiltPercentage");
            assert("UpOrOpen"@.len() == 8);
            assert("UpOrOpen"@[0] != '0');
            assert("DownOrClose"@.len() == 11);
            assert("DownOrClose"@[0] != '0');
            assert("StopMotion"@.len() == 10);
            assert("StopMotion"@[0] != '0');
            assert("GoToLiftPercentage"@.len() == 18);
            assert("GoToLiftPercentage"@[0] != '0');
            assert("GoToTiltPercentage"@.len() == 18);
            assert("GoToTiltPercentage"@[0] != '0');
            assert("GoToLiftPercentage"@[4] != "GoToTiltPercentage"@[4]);
        },
        _ => {},
    }
}

/// A general status's text reads back as the status: a name by the table,
/// a hex code as the number.
pub proof fn lemma_status_text_reads_back(code: u8)
    ensures
        status_by_name(status_text(code)) is Some ==> status_by_name(status_text(code)) == Some(code),
        status_by_name(status_text(code)) is None ==> id_of(status_text(code)) == Some(code as u32),
{
    reveal_strlit("0x");
    reveal_strlit("SUCCESS");
    reveal_strlit("FAILURE");
    reveal_strlit("INVALID_SUBSCRIPTION");
    reveal_strlit("UNSUPPORTED_ACCESS");
    reveal_strlit("UNSUPPORTED_ENDPOINT");
    reveal_strlit("INVALID_ACTION");
    reveal_strlit("UNSUPPORTED_COMMAND");
    reveal_strlit("INVALID_COMMAND");
    reveal_strlit("UNSUPPORTED_ATTRIBUTE");
    reveal_strlit("CONSTRAINT_ERROR");
    reveal_strlit("UNSUPPORTED_WRITE");
    reveal_strlit("RESOURCE_EXHAUSTED");
    reveal_strlit("NOT_FOUND");
    reveal_strlit("UNREPORTABLE_ATTRIBUTE");
    reveal_strlit("INVALID_DATA_TYPE");
    reveal_strlit("UNSUPPORTED_READ");
    reveal_strlit("DATA_VERSION_MISMATCH");
    reveal_strlit("TIMEOUT");
    reveal_strlit("BUSY");
    reveal_strlit("UNSUPPORTED_CLUSTER");
    reveal_strlit("NO_UPSTREAM_SUBSCRIPTION");
    reveal_strlit("NEEDS_TIMED_INTERACTION");
    reveal_strlit("UNSUPPORTED_EVENT");
    reveal_strlit("PATHS_EXHAUSTED");
    reveal_strlit("TIMED_REQUEST_MISMATCH");
    reveal_strlit("FAILSAFE_REQUIRED");
    reveal_strlit("INVALID_IN_STATE");
    reveal_strlit("NO_COMMAND_RESPONSE");
    assert("SUCCESS"@.len() == 7);
    assert("SUCCESS"@[0] != '0');
    assert("FAILURE"@.len() == 7);
    assert("FAILURE"@[0] != '0');
    assert("INVALID_SUBSCRIPTION"@.len() == 20);
    assert("INVALID_SUBSCRIPTION"@[0] != '0');
    assert("UNSUPPORTED_ACCESS"@.len() == 18);
    assert("UNSUPPORTED_ACCESS"@[0] != '0');
    assert("UNSUPPORTED_ENDPOINT"@.len() == 20);
    assert("UNSUPPORTED_ENDPOINT"@[0] != '0');
    assert("INVALID_ACTION"@.len() == 14);
    assert("INVALID_ACTION"@[0] != '0');
    assert("UNSUPPORTED_COMMAND"@.len() == 19);
    assert("UNSUPPORTED_COMMAND"@[0] != '0');
    assert("INVALID_COMMAND"@.len() == 15);
    assert("INVALID_COMMAND"@[0] != '0');
    assert("UNSUPPORTED_ATTRIBUTE"@.len() == 21);
    assert("UNSUPPORTED_ATTRIBUTE"@[0] != '0');
    assert("CONSTRAINT_ERROR"@.len() == 16);
    assert("CONSTRAINT_ERROR"@[0] != '0');
    assert("UNSUPPORTED_WRITE"@.len() == 17);
    assert("UNSUPPORTED_WRITE"@[0] != '0');
    assert("RESOURCE_EXHAUSTED"@.len() == 18);
    assert("RESOURCE_EXHAUSTED"@[0] != '0');
    assert("NOT_FOUND"@.len() == 9);
    assert("NOT_FOUND"@[0] != '0');
    assert("UNREPORTABLE_ATTRIBUTE"@.len() == 22);
    assert("UNREPORTABLE_ATTRIBUTE"@[0] != '0');
    assert("INVALID_DATA_TYPE"@.len() == 17);
    assert("INVALID_DATA_TYPE"@[0] != '0');
    assert("UNSUPPORTED_READ"@.len() == 16);
    assert("UNSUPPORTED_READ"@[0] != '0');
    assert("DATA_VERSION_MISMATCH"@.len() == 21);
    assert("DATA_VERSION_MISMATCH"@[0] != '0');
    assert("TIMEOUT"@.len() == 7);
    assert("TIMEOUT"@[0] != '0');
    assert("BUSY"@.len() == 4);
    assert("BUSY"@[0] != '0');
    assert("UNSUPPORTED_CLUSTER"@.len() == 19);
    assert("UNSUPPORTED_CLUSTER"@[0] != '0');
    assert("NO_UPSTREAM_SUBSCRIPTION"@.len() == 24);
    assert("NO_UPSTREAM_SUBSCRIPTION"@[0] != '0');
    assert("NEEDS_TIMED_INTERACTION"@.len() == 23);
    assert("NEEDS_TIMED_INTERACTION"@[0] != '0');
    assert("UNSUPPORTED_EVENT"@.len() == 17);
    assert("UNSUPPORTED_EVENT"@[0] != '0');
    assert("PATHS_EXHAUSTED"@.len() == 15);
    assert("PATHS_EXHAUSTED"@[0] != '0');
    assert("TIMED_REQUEST_MISMATCH"@.len() == 22);
    assert("TIMED_REQUEST_MISMATCH"@[0] != '0');
    assert("FAILSAFE_REQUIRED"@.len() == 17);
    assert("FAILSAFE_REQUIRED"@[0] != '0');
    assert("INVALID_IN_STATE"@.len() == 16);
    assert("INVALID_IN_STATE"@[0] != '0');
    assert("NO_COMMAND_RESPONSE"@.len() == 19);
    assert("NO_COMMAND_RESPONSE"@[0] != '0');
    assert("SUCCESS"@[0] != "FAILURE"@[0]);
    assert("SUCCESS"@[0] != "TIMEOUT"@[0]);
    assert("FAILURE"@[0] != "TIMEOUT"@[0]);
    assert("INVALID_SUBSCRIPTION"@[0] != "UNSUPPORTED_ENDPOINT"@[0]);
    assert("UNSUPPORTED_ACCESS"@[0] != "RESOURCE_EXHAUSTED"@[0]);
    assert("UNSUPPORTED_COMMAND"@[13] != "UNSUPPORTED_CLUSTER"@[13]);
    assert("UNSUPPORTED_COMMAND"@[0] != "NO_COMMAND_RESPONSE"@[0]);
    assert("INVALID_COMMAND"@[0] != "PATHS_EXHAUSTED"@[0]);
    assert("UNSUPPORTED_ATTRIBUTE"@[0] != "DATA_VERSION_MISMATCH"@[0]);
    assert("CONSTRAINT_ERROR"@[0] != "UNSUPPORTED_READ"@[0]);
    assert("CONSTRAINT_ERROR"@[0] != "INVALID_IN_STATE"@[0]);
    assert("UNSUPPORTED_WRITE"@[0] != "INVALID_DATA_TYPE"@[0]);
    assert("UNSUPPORTED_WRITE"@[12] != "UNSUPPORTED_EVENT"@[12]);
    assert("UNSUPPORTED_WRITE"@[0] != "FAILSAFE_REQUIRED"@[0]);
    assert("UNREPORTABLE_ATTRIBUTE"@[0] != "TIMED_REQUEST_MISMATCH"@[0]);
    assert("INVALID_DATA_TYPE"@[0] != "UNSUPPORTED_EVENT"@[0]);
    assert("INVALID_DATA_TYPE"@[0] != "FAILSAFE_REQUIRED"@[0]);
    assert("UNSUPPORTED_READ"@[0] != "INVALID_IN_STATE"@[0]);
    assert("UNSUPPORTED_CLUSTER"@[0] != "NO_COMMAND_RESPONSE"@[0]);
    assert("UNSUPPORTED_EVENT"@[0] != "FAILSAFE_REQUIRED"@[0]);
    if status_named(code) is None {
        let text = "0x"@ + hex(code as nat, 2);
        assert(text[0] == '0');
        lemma_id_of_hex(code as u32, 2);
    }
}

} // verus!
