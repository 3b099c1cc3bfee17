//! The rows of the relational tables that the frame reader consumes.
//!
//! Real-valued columns are held as IEEE-754 binary64 bit patterns.

use crate::ms_data::MaldiInfo;
use vstd::prelude::*;
use vstd::std_specs::convert::FromSpecImpl;

verus! {

/// Raw frame metadata from the `Frames` table.
#[derive(Debug, PartialEq, Eq)]
pub struct SqlFrame {
    pub id: usize,
    pub scan_mode: u8,
    pub msms_type: u8,
    pub peak_count: u64,
    /// Retention time in seconds, as a bit pattern.
    pub rt: u64,
    pub scan_count: u64,
    pub binary_offset: usize,
    /// Accumulation time, as a bit pattern.
    pub accumulation_time: u64,
}

impl SqlFrame {
    /// The query that yields the columns of a row, in field order.
    pub fn get_sql_query() -> (query: String)
        ensures
            query@
                == "SELECT Id, ScanMode, MsMsType, NumPeaks, Time, NumScans, TimsId, AccumulationTime FROM Frames"@,
    {
        "SELECT Id, ScanMode, MsMsType, NumPeaks, Time, NumScans, TimsId, AccumulationTime FROM Frames".to_owned()
    }
}

impl SqlFrame {
    /// Builds a row from its columns, in query order. A column that could
    /// not be read gives 0 (for a real-valued column, the bits of 0.0).
    pub fn from_columns(
        id: Option<usize>,
        scan_mode: Option<u8>,
        msms_type: Option<u8>,
        peak_count: Option<u64>,
        rt: Option<u64>,
        scan_count: Option<u64>,
        binary_offset: Option<usize>,
        accumulation_time: Option<u64>,
    ) -> (row: SqlFrame)
        ensures
            row == (SqlFrame {
                id: id.unwrap_or(0),
                scan_mode: scan_mode.unwrap_or(0),
                msms_type: msms_type.unwrap_or(0),
                peak_count: peak_count.unwrap_or(0),
                rt: rt.unwrap_or(0),
                scan_count: scan_count.unwrap_or(0),
                binary_offset: binary_offset.unwrap_or(0),
                accumulation_time: accumulation_time.unwrap_or(0),
            }),
    {
        SqlFrame {
            id: id.unwrap_or(0),
            scan_mode: scan_mode.unwrap_or(0),
            msms_type: msms_type.unwrap_or(0),
            peak_count: peak_count.unwrap_or(0),
            rt: rt.unwrap_or(0),
            scan_count: scan_count.unwrap_or(0),
            binary_offset: binary_offset.unwrap_or(0),
            accumulation_time: accumulation_time.unwrap_or(0),
        }
    }
}

impl Default for SqlFrame {
    fn default() -> (row: SqlFrame)
        ensures
            row == (SqlFrame {
                id: 0,
                scan_mode: 0,
                msms_type: 0,
                peak_count: 0,
                rt: 0,
                scan_count: 0,
                binary_offset: 0,
                accumulation_time: 0,
            }),
    {
        SqlFrame {
            id: 0,
            scan_mode: 0,
            msms_type: 0,
            peak_count: 0,
            rt: 0,
            scan_count: 0,
            binary_offset: 0,
            accumulation_time: 0,
        }
    }
}

/// One row of the mapping from DIA frames to window groups. `frame` is the
/// 1-based position of the frame in the `Frames` table.
#[derive(Debug, PartialEq, Eq, Clone, Copy)]
pub struct SqlWindowGroup {
    pub frame: usize,
    pub window_group: u8,
}

/// MALDI frame information from the `MaldiFrameInfo` table: the spatial
/// coordinates of one pixel and the laser settings used for it.
#[derive(Debug, PartialEq, Eq)]
pub struct SqlMaldiFrameInfo {
    /// Frame ID (corresponds to `SqlFrame::id`)
    pub frame: usize,
    /// Spot name identifier
    pub spot_name: String,
    /// X pixel coordinate (grid index)
    pub x_index_pos: i32,
    /// Y pixel coordinate (grid index)
    pub y_index_pos: i32,
    /// X position in micrometers (physical coordinate)
    pub x_position: Option<u64>,
    /// Y position in micrometers (physical coordinate)
    pub y_position: Option<u64>,
    /// Laser power setting
    pub laser_power: Option<u64>,
    /// Laser repetition rate
    pub laser_rep_rate: Option<u64>,
    /// Number of laser shots
    pub laser_shots: Option<i32>,
}

impl SqlMaldiFrameInfo {
    /// The query that yields the columns of a row, in field order.
    pub fn get_sql_query() -> (query: String)
        ensures
            query@
                == "SELECT Frame, SpotName, XIndexPos, YIndexPos, PositionX, PositionY, LaserPower, LaserRepRate, NumLaserShots FROM MaldiFrameInfo"@,
    {
        "SELECT Frame, SpotName, XIndexPos, YIndexPos, PositionX, PositionY, LaserPower, LaserRepRate, NumLaserShots FROM MaldiFrameInfo".to_owned()
    }

    /// Builds a row from its columns, in query order. Frame id and pixel
    /// coordinates that could not be read give 0 and a spot name that could
    /// not be read gives the empty name; the other columns stay optional.
    pub fn from_columns(
        frame: Option<usize>,
        spot_name: Option<String>,
        x_index_pos: Option<i32>,
        y_index_pos: Option<i32>,
        x_position: Option<u64>,
        y_position: Option<u64>,
        laser_power: Option<u64>,
        laser_rep_rate: Option<u64>,
        laser_shots: Option<i32>,
    ) -> (row: SqlMaldiFrameInfo)
        ensures
            row.frame == frame.unwrap_or(0),
            match spot_name {
                Some(name) => row.spot_name == name,
                None => row.spot_name@.len() == 0,
            },
            row.x_index_pos == x_index_pos.unwrap_or(0),
            row.y_index_pos == y_index_pos.unwrap_or(0),
            row.x_position == x_position,
            row.y_position == y_position,
            row.laser_power == laser_power,
            row.laser_rep_rate == laser_rep_rate,
            row.laser_shots == laser_shots,
    {
        let spot_name: String = match spot_name {
            Some(name) => name,
            None => String::new(),
        };
        SqlMaldiFrameInfo {
            frame: frame.unwrap_or(0),
            spot_name,
            x_index_pos: x_index_pos.unwrap_or(0),
            y_index_pos: y_index_pos.unwrap_or(0),
            x_position,
            y_position,
            laser_power,
            laser_rep_rate,
            laser_shots,
        }
    }

    /// The metadata that a frame keyed by this row carries.
    pub open spec fn maldi_info(&self) -> MaldiInfo {
        MaldiInfo {
            spot_name: self.spot_name,
            pixel_x: self.x_index_pos,
            pixel_y: self.y_index_pos,
            position_x_um: self.x_position,
            position_y_um: self.y_position,
            laser_power: self.laser_power,
            laser_rep_rate: self.laser_rep_rate,
            laser_shots: self.laser_shots,
        }
    }

    /// The same metadata, computed.
    pub fn to_maldi_info(&self) -> (info: MaldiInfo)
        ensures
            info == self.maldi_info(),
    {
        MaldiInfo {
            spot_name: self.spot_name.clone(),
            pixel_x: self.x_index_pos,
            pixel_y: self.y_index_pos,
            position_x_um: self.x_position,
            position_y_um: self.y_position,
            laser_power: self.laser_power,
            laser_rep_rate: self.laser_rep_rate,
            laser_shots: self.laser_shots,
        }
    }
}

impl Clone for SqlMaldiFrameInfo {
    fn clone(&self) -> (copy: SqlMaldiFrameInfo)
        ensures
            copy == *self,
    {
        SqlMaldiFrameInfo {
            frame: self.frame,
            spot_name: self.spot_name.clone(),
            x_index_pos: self.x_index_pos,
            y_index_pos: self.y_index_pos,
            x_position: self.x_position,
            y_position: self.y_position,
            laser_power: self.laser_power,
            laser_rep_rate: self.laser_rep_rate,
            laser_shots: self.laser_shots,
        }
    }
}

impl Default for SqlMaldiFrameInfo {
    fn default() -> (row: SqlMaldiFrameInfo)
        ensures
            row.frame == 0,
            row.spot_name@.len() == 0,
            row.x_index_pos == 0,
            row.y_index_pos == 0,
            row.x_position.is_none(),
            row.y_position.is_none(),
            row.laser_power.is_none(),
            row.laser_rep_rate.is_none(),
            row.laser_shots.is_none(),
    {
        SqlMaldiFrameInfo {
            frame: 0,
            spot_name: String::new(),
            x_index_pos: 0,
            y_index_pos: 0,
            x_position: None,
            y_position: None,
            laser_power: None,
            laser_rep_rate: None,
            laser_shots: None,
        }
    }
}

/// MALDI-specific metadata of one frame, detached from its frame id.
#[derive(Debug, PartialEq, Eq)]
pub struct MaldiFrameInfo {
    /// Spot name identifier
    pub spot_name: String,
    /// X pixel coordinate (grid index)
    pub pixel_x: i32,
    /// Y pixel coordinate (grid index)
    pub pixel_y: i32,
    /// X position in micrometers (physical coordinate)
    pub position_x_um: Option<u64>,
    /// Y position in micrometers (physical coordinate)
    pub position_y_um: Option<u64>,
    /// Laser power setting
    pub laser_power: Option<u64>,
    /// Laser repetition rate
    pub laser_rep_rate: Option<u64>,
    /// Number of laser shots
    pub laser_shots: Option<i32>,
}

impl From<SqlMaldiFrameInfo> for MaldiFrameInfo {
    fn from(sql: SqlMaldiFrameInfo) -> (info: MaldiFrameInfo) {
        MaldiFrameInfo {
            spot_name: sql.spot_name,
            pixel_x: sql.x_index_pos,
            pixel_y: sql.y_index_pos,
            position_x_um: sql.x_position,
            position_y_um: sql.y_position,
            laser_power: sql.laser_power,
            laser_rep_rate: sql.laser_rep_rate,
            laser_shots: sql.laser_shots,
        }
    }
}

impl FromSpecImpl<SqlMaldiFrameInfo> for MaldiFrameInfo {
    open spec fn obeys_from_spec() -> bool {
        true
    }

    open spec fn from_spec(sql: SqlMaldiFrameInfo) -> MaldiFrameInfo {
        MaldiFrameInfo {
            spot_name: sql.spot_name,
            pixel_x: sql.x_index_pos,
            pixel_y: sql.y_index_pos,
            position_x_um: sql.x_position,
            position_y_um: sql.y_position,
            laser_power: sql.laser_power,
            laser_rep_rate: sql.laser_rep_rate,
            laser_shots: sql.laser_shots,
        }
    }
}

} // verus!
