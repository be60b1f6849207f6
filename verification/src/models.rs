//! The rows of the tables.
use vstd::prelude::*;
use crate::flextimestamp::FlexTimestamp;
use crate::flexuuid::{FlexUuid, random_v4_layout};

verus! {

/// A copy of an optional text.
pub fn clone_opt_string(s: &Option<String>) -> (r: Option<String>)
    ensures
        r == *s,
{
    match s {
        Some(t) => Some(t.clone()),
        None => None,
    }
}

/// A comment attached to a change set.
#[derive(Debug, PartialEq)]
pub struct Comment {
    pub RecordUUID: FlexUuid,
    pub Deleted: bool,
    pub ChangesetID: i32,
    pub CommentID: i32,
}

impl Clone for Comment {
    fn clone(&self) -> (r: Self)
        ensures
            r == *self,
    {
        Comment {
            RecordUUID: self.RecordUUID,
            Deleted: self.Deleted,
            ChangesetID: self.ChangesetID,
            CommentID: self.CommentID,
        }
    }
}

impl Default for Comment {
    /// A fresh row: new random identifiers, the current time, and every other
    /// field zero, false, empty or absent.
    fn default() -> (r: Self)
        ensures
            random_v4_layout(r.RecordUUID.bits),
            !r.Deleted,
            r.ChangesetID == 0,
            r.CommentID == 0,
    {
        Comment {
            RecordUUID: FlexUuid::new_random(),
            Deleted: false,
            ChangesetID: 0,
            CommentID: 0,
        }
    }
}

/// One page of a floor plan: a map image, its clip rectangle and legend.
#[derive(Debug, PartialEq)]
pub struct FloorMap {
    pub FloorMapUUID: FlexUuid,
    pub Deleted: bool,
    pub Name: String,
    pub Description: String,
    pub FullText: String,
    pub ParentFloorPlanUUID: FlexUuid,
    pub FloorMapFileName: String,
    pub FloorMapFileVersion: i32,
    pub Locked: bool,
    pub LockedBy: Option<String>,
    pub LockedAt: Option<FlexTimestamp>,
    pub SortOrder: i32,
    pub ClipLeft: i32,
    pub ClipTop: i32,
    pub ClipWidth: i32,
    pub ClipHeight: i32,
    pub LegendTop: i32,
    pub LegendLeft: i32,
    pub LegendFontSize: i32,
    pub UpdatedAt: FlexTimestamp,
}

impl Clone for FloorMap {
    fn clone(&self) -> (r: Self)
        ensures
            r == *self,
    {
        FloorMap {
            FloorMapUUID: self.FloorMapUUID,
            Deleted: self.Deleted,
            Name: self.Name.clone(),
            Description: self.Description.clone(),
            FullText: self.FullText.clone(),
            ParentFloorPlanUUID: self.ParentFloorPlanUUID,
            FloorMapFileName: self.FloorMapFileName.clone(),
            FloorMapFileVersion: self.FloorMapFileVersion,
            Locked: self.Locked,
            LockedBy: clone_opt_string(&self.LockedBy),
            LockedAt: self.LockedAt,
            SortOrder: self.SortOrder,
            ClipLeft: self.ClipLeft,
            ClipTop: self.ClipTop,
            ClipWidth: self.ClipWidth,
            ClipHeight: self.ClipHeight,
            LegendTop: self.LegendTop,
            LegendLeft: self.LegendLeft,
            LegendFontSize: self.LegendFontSize,
            UpdatedAt: self.UpdatedAt,
        }
    }
}

impl Default for FloorMap {
    /// A fresh row: new random identifiers, the current time, and every other
    /// field zero, false, empty or absent.
    fn default() -> (r: Self)
        ensures
            random_v4_layout(r.FloorMapUUID.bits),
            random_v4_layout(r.ParentFloorPlanUUID.bits),
            !r.Deleted,
            r.Name@ == Seq::<char>::empty(),
            r.Description@ == Seq::<char>::empty(),
            r.FullText@ == Seq::<char>::empty(),
            r.FloorMapFileName@ == Seq::<char>::empty(),
            r.FloorMapFileVersion == 0,
            !r.Locked,
            r.LockedBy is None,
            r.LockedAt is None,
            r.SortOrder == 0,
            r.ClipLeft == 0,
            r.ClipTop == 0,
            r.ClipWidth == 0,
            r.ClipHeight == 0,
            r.LegendTop == 0,
            r.LegendLeft == 0,
            r.LegendFontSize == 0,
            r.UpdatedAt.valid(),
    {
        FloorMap {
            FloorMapUUID: FlexUuid::new_random(),
            Deleted: false,
            Name: String::new(),
            Description: String::new(),
            FullText: String::new(),
            ParentFloorPlanUUID: FlexUuid::new_random(),
            FloorMapFileName: String::new(),
            FloorMapFileVersion: 0,
            Locked: false,
            LockedBy: None,
            LockedAt: None,
            SortOrder: 0,
            ClipLeft: 0,
            ClipTop: 0,
            ClipWidth: 0,
            ClipHeight: 0,
            LegendTop: 0,
            LegendLeft: 0,
            LegendFontSize: 0,
            UpdatedAt: FlexTimestamp::now(),
        }
    }
}

/// A floor plan: a set of floor maps imported from one directory.
#[derive(Debug, PartialEq)]
pub struct FloorPlan {
    pub FloorPlanUUID: FlexUuid,
    pub Deleted: bool,
    pub Active: bool,
    pub Name: String,
    pub Description: String,
    pub ParentFloorPlanUUID: Option<FlexUuid>,
    pub FloorPlanPath: String,
    pub CreatedAt: FlexTimestamp,
    pub UpdatedAt: FlexTimestamp,
}

impl Clone for FloorPlan {
    fn clone(&self) -> (r: Self)
        ensures
            r == *self,
    {
        FloorPlan {
            FloorPlanUUID: self.FloorPlanUUID,
            Deleted: self.Deleted,
            Active: self.Active,
            Name: self.Name.clone(),
            Description: self.Description.clone(),
            ParentFloorPlanUUID: self.ParentFloorPlanUUID,
            FloorPlanPath: self.FloorPlanPath.clone(),
            CreatedAt: self.CreatedAt,
            UpdatedAt: self.UpdatedAt,
        }
    }
}

impl Default for FloorPlan {
    /// A fresh row: new random identifiers, the current time, and every other
    /// field zero, false, empty or absent.
    fn default() -> (r: Self)
        ensures
            random_v4_layout(r.FloorPlanUUID.bits),
            !r.Deleted,
            !r.Active,
            r.Name@ == Seq::<char>::empty(),
            r.Description@ == Seq::<char>::empty(),
            r.ParentFloorPlanUUID is None,
            r.FloorPlanPath@ == Seq::<char>::empty(),
            r.CreatedAt.valid(),
            r.UpdatedAt.valid(),
    {
        FloorPlan {
            FloorPlanUUID: FlexUuid::new_random(),
            Deleted: false,
            Active: false,
            Name: String::new(),
            Description: String::new(),
            ParentFloorPlanUUID: None,
            FloorPlanPath: String::new(),
            CreatedAt: FlexTimestamp::now(),
            UpdatedAt: FlexTimestamp::now(),
        }
    }
}

/// A background job and its status.
#[derive(Debug, PartialEq)]
pub struct Job {
    pub RecordUUID: FlexUuid,
    pub JobGrouName: String,
    pub InstanceID: i32,
    pub JobID: String,
    pub JobPID: i32,
    pub ParentJobID: Option<String>,
    pub changeset_id: i32,
    pub patchset_id: i32,
    pub command: String,
    pub command_pid: Option<i32>,
    pub remote_host: Option<String>,
    pub status_message: String,
    pub status_updated_at: Option<FlexTimestamp>,
    pub started_at: Option<FlexTimestamp>,
    pub finished_at: Option<FlexTimestamp>,
    pub return_success: bool,
    pub return_code: Option<i32>,
    pub trigger_event_id: Option<String>,
}

impl Clone for Job {
    fn clone(&self) -> (r: Self)
        ensures
            r == *self,
    {
        Job {
            RecordUUID: self.RecordUUID,
            JobGrouName: self.JobGrouName.clone(),
            InstanceID: self.InstanceID,
            JobID: self.JobID.clone(),
            JobPID: self.JobPID,
            ParentJobID: clone_opt_string(&self.ParentJobID),
            changeset_id: self.changeset_id,
            patchset_id: self.patchset_id,
            command: self.command.clone(),
            command_pid: self.command_pid,
            remote_host: clone_opt_string(&self.remote_host),
            status_message: self.status_message.clone(),
            status_updated_at: self.status_updated_at,
            started_at: self.started_at,
            finished_at: self.finished_at,
            return_success: self.return_success,
            return_code: self.return_code,
            trigger_event_id: clone_opt_string(&self.trigger_event_id),
        }
    }
}

impl Default for Job {
    /// A fresh row: new random identifiers, the current time, and every other
    /// field zero, false, empty or absent.
    fn default() -> (r: Self)
        ensures
            random_v4_layout(r.RecordUUID.bits),
            r.JobGrouName@ == Seq::<char>::empty(),
            r.InstanceID == 0,
            r.JobID@ == Seq::<char>::empty(),
            r.JobPID == 0,
            r.ParentJobID is None,
            r.changeset_id == 0,
            r.patchset_id == 0,
            r.command@ == Seq::<char>::empty(),
            r.command_pid is None,
            r.remote_host is None,
            r.status_message@ == Seq::<char>::empty(),
            r.status_updated_at is None,
            r.started_at is None,
            r.finished_at is None,
            !r.return_success,
            r.return_code is None,
            r.trigger_event_id is None,
    {
        Job {
            RecordUUID: FlexUuid::new_random(),
            JobGrouName: String::new(),
            InstanceID: 0,
            JobID: String::new(),
            JobPID: 0,
            ParentJobID: None,
            changeset_id: 0,
            patchset_id: 0,
            command: String::new(),
            command_pid: None,
            remote_host: None,
            status_message: String::new(),
            status_updated_at: None,
            started_at: None,
            finished_at: None,
            return_success: false,
            return_code: None,
            trigger_event_id: None,
        }
    }
}

/// A log entry.
#[derive(Debug, PartialEq)]
pub struct Log {
    pub LogUUID: FlexUuid,
    pub LogTimestamp: FlexTimestamp,
    pub Key1: i32,
    pub Key2: i32,
    pub Key3UUID: FlexUuid,
    pub Key4UUID: FlexUuid,
    pub Username: String,
    pub Source: String,
    pub Message: String,
    pub Data1: String,
    pub Data2: String,
}

impl Clone for Log {
    fn clone(&self) -> (r: Self)
        ensures
            r == *self,
    {
        Log {
            LogUUID: self.LogUUID,
            LogTimestamp: self.LogTimestamp,
            Key1: self.Key1,
            Key2: self.Key2,
            Key3UUID: self.Key3UUID,
            Key4UUID: self.Key4UUID,
            Username: self.Username.clone(),
            Source: self.Source.clone(),
            Message: self.Message.clone(),
            Data1: self.Data1.clone(),
            Data2: self.Data2.clone(),
        }
    }
}

impl Default for Log {
    /// A fresh row: new random identifiers, the current time, and every other
    /// field zero, false, empty or absent.
    fn default() -> (r: Self)
        ensures
            random_v4_layout(r.LogUUID.bits),
            random_v4_layout(r.Key3UUID.bits),
            random_v4_layout(r.Key4UUID.bits),
            r.LogTimestamp.valid(),
            r.Key1 == 0,
            r.Key2 == 0,
            r.Username@ == Seq::<char>::empty(),
            r.Source@ == Seq::<char>::empty(),
            r.Message@ == Seq::<char>::empty(),
            r.Data1@ == Seq::<char>::empty(),
            r.Data2@ == Seq::<char>::empty(),
    {
        Log {
            LogUUID: FlexUuid::new_random(),
            LogTimestamp: FlexTimestamp::now(),
            Key1: 0,
            Key2: 0,
            Key3UUID: FlexUuid::new_random(),
            Key4UUID: FlexUuid::new_random(),
            Username: String::new(),
            Source: String::new(),
            Message: String::new(),
            Data1: String::new(),
            Data2: String::new(),
        }
    }
}

/// An object placed on a floor map, with a label and an arrow.
#[derive(Debug, PartialEq)]
pub struct MapObject {
    pub MapObjectUUID: FlexUuid,
    pub Deleted: bool,
    pub DeletedBy: Option<String>,
    pub DeletedAt: Option<FlexTimestamp>,
    pub Locked: bool,
    pub LockedBy: Option<String>,
    pub LockedAt: Option<FlexTimestamp>,
    pub Name: String,
    pub LabelSize: i32,
    pub Description: String,
    pub Meta: String,
    pub ParentMapUUID: FlexUuid,
    pub TypeObjectUUID: Option<FlexUuid>,
    pub MapX: i32,
    pub MapY: i32,
    pub ArrowX: i32,
    pub ArrowY: i32,
    pub UpdatedAt: FlexTimestamp,
}

impl Clone for MapObject {
    fn clone(&self) -> (r: Self)
        ensures
            r == *self,
    {
        MapObject {
            MapObjectUUID: self.MapObjectUUID,
            Deleted: self.Deleted,
            DeletedBy: clone_opt_string(&self.DeletedBy),
            DeletedAt: self.DeletedAt,
            Locked: self.Locked,
            LockedBy: clone_opt_string(&self.LockedBy),
            LockedAt: self.LockedAt,
            Name: self.Name.clone(),
            LabelSize: self.LabelSize,
            Description: self.Description.clone(),
            Meta: self.Meta.clone(),
            ParentMapUUID: self.ParentMapUUID,
            TypeObjectUUID: self.TypeObjectUUID,
            MapX: self.MapX,
            MapY: self.MapY,
            ArrowX: self.ArrowX,
            ArrowY: self.ArrowY,
            UpdatedAt: self.UpdatedAt,
        }
    }
}

impl Default for MapObject {
    /// A fresh row: new random identifiers, the current time, and every other
    /// field zero, false, empty or absent.
    fn default() -> (r: Self)
        ensures
            random_v4_layout(r.MapObjectUUID.bits),
            random_v4_layout(r.ParentMapUUID.bits),
            !r.Deleted,
            r.DeletedBy is None,
            r.DeletedAt is None,
            !r.Locked,
            r.LockedBy is None,
            r.LockedAt is None,
            r.Name@ == Seq::<char>::empty(),
            r.LabelSize == 0,
            r.Description@ == Seq::<char>::empty(),
            r.Meta@ == Seq::<char>::empty(),
            r.TypeObjectUUID is None,
            r.MapX == 0,
            r.MapY == 0,
            r.ArrowX == 0,
            r.ArrowY == 0,
            r.UpdatedAt.valid(),
    {
        MapObject {
            MapObjectUUID: FlexUuid::new_random(),
            Deleted: false,
            DeletedBy: None,
            DeletedAt: None,
            Locked: false,
            LockedBy: None,
            LockedAt: None,
            Name: String::new(),
            LabelSize: 0,
            Description: String::new(),
            Meta: String::new(),
            ParentMapUUID: FlexUuid::new_random(),
            TypeObjectUUID: None,
            MapX: 0,
            MapY: 0,
            ArrowX: 0,
            ArrowY: 0,
            UpdatedAt: FlexTimestamp::now(),
        }
    }
}

/// A service offered in the menu.
#[derive(Debug, PartialEq)]
pub struct Service {
    pub ServiceUUID: FlexUuid,
    pub Deleted: bool,
    pub MenuOrder: i32,
    pub ServiceName: String,
    pub ServiceLabel: String,
}

impl Clone for Service {
    fn clone(&self) -> (r: Self)
        ensures
            r == *self,
    {
        Service {
            ServiceUUID: self.ServiceUUID,
            Deleted: self.Deleted,
            MenuOrder: self.MenuOrder,
            ServiceName: self.ServiceName.clone(),
            ServiceLabel: self.ServiceLabel.clone(),
        }
    }
}

impl Default for Service {
    /// A fresh row: new random identifiers, the current time, and every other
    /// field zero, false, empty or absent.
    fn default() -> (r: Self)
        ensures
            random_v4_layout(r.ServiceUUID.bits),
            !r.Deleted,
            r.MenuOrder == 0,
            r.ServiceName@ == Seq::<char>::empty(),
            r.ServiceLabel@ == Seq::<char>::empty(),
    {
        Service {
            ServiceUUID: FlexUuid::new_random(),
            Deleted: false,
            MenuOrder: 0,
            ServiceName: String::new(),
            ServiceLabel: String::new(),
        }
    }
}

/// A file uploaded for some record.
#[derive(Debug, PartialEq)]
pub struct Upload {
    pub UploadUUID: FlexUuid,
    pub RelatedToUUID: FlexUuid,
    pub Deleted: bool,
    pub CreatedBy: String,
    pub CreatedAt: FlexTimestamp,
    pub UpdatedAt: FlexTimestamp,
    pub OriginalFileName: String,
    pub ServerFileName: String,
    pub ServerFileSize: i32,
    pub MimeType: String,
    pub Checksum: String,
    pub ChecksumType: String,
    pub Key1: i32,
    pub Key2: i32,
    pub Key3UUID: FlexUuid,
    pub Key4UUID: FlexUuid,
    pub Message: String,
    pub Data1: String,
    pub Data2: String,
}

impl Clone for Upload {
    fn clone(&self) -> (r: Self)
        ensures
            r == *self,
    {
        Upload {
            UploadUUID: self.UploadUUID,
            RelatedToUUID: self.RelatedToUUID,
            Deleted: self.Deleted,
            CreatedBy: self.CreatedBy.clone(),
            CreatedAt: self.CreatedAt,
            UpdatedAt: self.UpdatedAt,
            OriginalFileName: self.OriginalFileName.clone(),
            ServerFileName: self.ServerFileName.clone(),
            ServerFileSize: self.ServerFileSize,
            MimeType: self.MimeType.clone(),
            Checksum: self.Checksum.clone(),
            ChecksumType: self.ChecksumType.clone(),
            Key1: self.Key1,
            Key2: self.Key2,
            Key3UUID: self.Key3UUID,
            Key4UUID: self.Key4UUID,
            Message: self.Message.clone(),
            Data1: self.Data1.clone(),
            Data2: self.Data2.clone(),
        }
    }
}

impl Default for Upload {
    /// A fresh row: new random identifiers, the current time, and every other
    /// field zero, false, empty or absent.
    fn default() -> (r: Self)
        ensures
            random_v4_layout(r.UploadUUID.bits),
            random_v4_layout(r.RelatedToUUID.bits),
            random_v4_layout(r.Key3UUID.bits),
            random_v4_layout(r.Key4UUID.bits),
            !r.Deleted,
            r.CreatedBy@ == Seq::<char>::empty(),
            r.CreatedAt.valid(),
            r.UpdatedAt.valid(),
            r.OriginalFileName@ == Seq::<char>::empty(),
            r.ServerFileName@ == Seq::<char>::empty(),
            r.ServerFileSize == 0,
            r.MimeType@ == Seq::<char>::empty(),
            r.Checksum@ == Seq::<char>::empty(),
            r.ChecksumType@ == Seq::<char>::empty(),
            r.Key1 == 0,
            r.Key2 == 0,
            r.Message@ == Seq::<char>::empty(),
            r.Data1@ == Seq::<char>::empty(),
            r.Data2@ == Seq::<char>::empty(),
    {
        Upload {
            UploadUUID: FlexUuid::new_random(),
            RelatedToUUID: FlexUuid::new_random(),
            Deleted: false,
            CreatedBy: String::new(),
            CreatedAt: FlexTimestamp::now(),
            UpdatedAt: FlexTimestamp::now(),
            OriginalFileName: String::new(),
            ServerFileName: String::new(),
            ServerFileSize: 0,
            MimeType: String::new(),
            Checksum: String::new(),
            ChecksumType: String::new(),
            Key1: 0,
            Key2: 0,
            Key3UUID: FlexUuid::new_random(),
            Key4UUID: FlexUuid::new_random(),
            Message: String::new(),
            Data1: String::new(),
            Data2: String::new(),
        }
    }
}

} // verus!
