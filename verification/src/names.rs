//! The names the Matter specification gives clusters, their commands and
//! the general statuses, and how anything it does not name is written.

use vstd::prelude::*;
use crate::text::hex;
use crate::naming::{cluster_text, command_text, status_text};

verus! {

/// Each cluster the Matter specification names here is written by its name.
pub proof fn clusters_read_as_their_names()
    ensures
        cluster_text(0x0003) == "Identify"@,
        cluster_text(0x0004) == "Groups"@,
        cluster_text(0x0006) == "OnOff"@,
        cluster_text(0x0008) == "LevelControl"@,
        cluster_text(0x003C) == "AdministratorCommissioning"@,
        cluster_text(0x0101) == "DoorLock"@,
        cluster_text(0x0102) == "WindowCovering"@,
{
}

/// A cluster not named here is written as `0x` and its id in at least four
/// upper-case hex digits.
pub proof fn other_clusters_read_as_hex(id: u32)
    requires
        id != 0x0003,
        id != 0x0004,
        id != 0x0006,
        id != 0x0008,
        id != 0x003C,
        id != 0x0101,
        id != 0x0102,
    ensures
        cluster_text(id) == "0x"@ + hex(id as nat, 4),
{
}

/// Each command the Matter specification names here, in its cluster, is
/// written by its name.
pub proof fn commands_read_as_their_names()
    ensures
        command_text(0x0003, 0x00) == "Identify"@,
        command_text(0x0003, 0x40) == "TriggerEffect"@,
        command_text(0x0004, 0x00) == "AddGroup"@,
        command_text(0x0004, 0x01) == "ViewGroup"@,
        command_text(0x0004, 0x02) == "GetGroupMembership"@,
        command_text(0x0004, 0x03) == "RemoveGroup"@,
        command_text(0x0004, 0x04) == "RemoveAllGroups"@,
        command_text(0x0004, 0x05) == "AddGroupIfIdentifying"@,
        command_text(0x0006, 0x00) == "Off"@,
        command_text(0x0006, 0x01) == "On"@,
        command_text(0x0006, 0x02) == "Toggle"@,
        command_text(0x0006, 0x40) == "OffWithEffect"@,
        command_text(0x0006, 0x41) == "OnWithRecallGlobalScene"@,
        command_text(0x0006, 0x42) == "OnWithTimedOff"@,
        command_text(0x0008, 0x00) == "MoveToLevel"@,
        command_text(0x0008, 0x01) == "Move"@,
        command_text(0x0008, 0x02) == "Step"@,
        command_text(0x0008, 0x03) == "Stop"@,
        command_text(0x0008, 0x04) == "MoveToLevelWithOnOff"@,
        command_text(0x0008, 0x05) == "MoveWithOnOff"@,
        command_text(0x0008, 0x06) == "StepWithOnOff"@,
        command_text(0x0008, 0x07) == "StopWithOnOff"@,
        command_text(0x003C, 0x00) == "OpenCommissioningWindow"@,
        command_text(0x003C, 0x01) == "OpenBasicCommissioningWindow"@,
        command_text(0x003C, 0x02) == "RevokeCommissioning"@,
        command_text(0x0101, 0x00) == "LockDoor"@,
        command_text(0x0101, 0x01) == "UnlockDoor"@,
        command_text(0x0101, 0x03) == "UnlockWithTimeout"@,
        command_text(0x0102, 0x00) == "UpOrOpen"@,
        command_text(0x0102, 0x01) == "DownOrClose"@,
        command_text(0x0102, 0x02) == "StopMotion"@,
        command_text(0x0102, 0x05) == "GoToLiftPercentage"@,
        command_text(0x0102, 0x08) == "GoToTiltPercentage"@,
{
}

/// A command not named here for its cluster is written as `0x` and its id
/// in at least two upper-case hex digits.
pub proof fn other_commands_read_as_hex(cluster: u32, id: u32)
    requires
        cluster == 0x0003 ==> !(id == 0x00 || id == 0x40),
        cluster == 0x0004 ==> !(id == 0x00 || id == 0x01 || id == 0x02 || id == 0x03 || id == 0x04 || id == 0x05),
        cluster == 0x0006 ==> !(id == 0x00 || id == 0x01 || id == 0x02 || id == 0x40 || id == 0x41 || id == 0x42),
        cluster == 0x0008 ==> !(id == 0x00 || id == 0x01 || id == 0x02 || id == 0x03 || id == 0x04 || id == 0x05 || id == 0x06 || id == 0x07),
        cluster == 0x003C ==> !(id == 0x00 || id == 0x01 || id == 0x02),
        cluster == 0x0101 ==> !(id == 0x00 || id == 0x01 || id == 0x03),
        cluster == 0x0102 ==> !(id == 0x00 || id == 0x01 || id == 0x02 || id == 0x05 || id == 0x08),
    ensures
        command_text(cluster, id) == "0x"@ + hex(id as nat, 2),
{
}

/// Each general status the Interaction Model defines is written by its name.
pub proof fn statuses_read_as_their_names()
    ensures
        status_text(0x00) == "SUCCESS"@,
        status_text(0x01) == "FAILURE"@,
        status_text(0x7D) == "INVALID_SUBSCRIPTION"@,
        status_text(0x7E) == "UNSUPPORTED_ACCESS"@,
        status_text(0x7F) == "UNSUPPORTED_ENDPOINT"@,
        status_text(0x80) == "INVALID_ACTION"@,
        status_text(0x81) == "UNSUPPORTED_COMMAND"@,
        status_text(0x85) == "INVALID_COMMAND"@,
        status_text(0x86) == "UNSUPPORTED_ATTRIBUTE"@,
        status_text(0x87) == "CONSTRAINT_ERROR"@,
        status_text(0x88) == "UNSUPPORTED_WRITE"@,
        status_text(0x89) == "RESOURCE_EXHAUSTED"@,
        status_text(0x8B) == "NOT_FOUND"@,
        status_text(0x8C) == "UNREPORTABLE_ATTRIBUTE"@,
        status_text(0x8D) == "INVALID_DATA_TYPE"@,
        status_text(0x8F) == "UNSUPPORTED_READ"@,
        status_text(0x92) == "DATA_VERSION_MISMATCH"@,
        status_text(0x94) == "TIMEOUT"@,
        status_text(0x9C) == "BUSY"@,
        status_text(0xC3) == "UNSUPPORTED_CLUSTER"@,
        status_text(0xC5) == "NO_UPSTREAM_SUBSCRIPTION"@,
        status_text(0xC6) == "NEEDS_TIMED_INTERACTION"@,
        status_text(0xC7) == "UNSUPPORTED_EVENT"@,
        status_text(0xC8) == "PATHS_EXHAUSTED"@,
        status_text(0xC9) == "TIMED_REQUEST_MISMATCH"@,
        status_text(0xCA) == "FAILSAFE_REQUIRED"@,
        status_text(0xCB) == "INVALID_IN_STATE"@,
        status_text(0xCC) == "NO_COMMAND_RESPONSE"@,
{
}

/// A general status the Interaction Model does not define is written as
/// `0x` and its code in two upper-case hex digits.
pub proof fn other_statuses_read_as_hex(code: u8)
    requires
        code != 0x00,
        code != 0x01,
        code != 0x7D,
        code != 0x7E,
        code != 0x7F,
        code != 0x80,
        code != 0x81,
        code != 0x85,
        code != 0x86,
        code != 0x87,
        code != 0x88,
        code != 0x89,
        code != 0x8B,
        code != 0x8C,
        code != 0x8D,
        code != 0x8F,
        code != 0x92,
        code != 0x94,
        code != 0x9C,
        code != 0xC3,
        code != 0xC5,
        code != 0xC6,
        code != 0xC7,
        code != 0xC8,
        code != 0xC9,
        code != 0xCA,
        code != 0xCB,
        code != 0xCC,
    ensures
        status_text(code) == "0x"@ + hex(code as nat, 2),
{
}

} // verus!
