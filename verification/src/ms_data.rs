//! The in-memory frame and the small enumerations attached to it.

use std::sync::Arc;
use vstd::prelude::*;

verus! {

/// The MS level used.
#[derive(Debug, PartialEq, Eq, Clone, Copy, Structural)]
pub enum MSLevel {
    MS1,
    MS2,
    /// Default value.
    Unknown,
}

impl MSLevel {
    /// The level that a `MsMsType` column value stands for.
    pub open spec fn of_msms_type(msms_type: u8) -> MSLevel {
        if msms_type == 0 {
            MSLevel::MS1
        } else if msms_type == 8 || msms_type == 9 {
            MSLevel::MS2
        } else {
            MSLevel::Unknown
        }
    }

    pub fn read_from_msms_type(msms_type: u8) -> (level: MSLevel)
        ensures
            level == Self::of_msms_type(msms_type),
            level == MSLevel::MS1 <==> msms_type == 0,
            level == MSLevel::MS2 <==> (msms_type == 8 || msms_type == 9),
            level == MSLevel::Unknown <==> (msms_type != 0 && msms_type != 8 && msms_type != 9),
    {
        match msms_type {
            0 => MSLevel::MS1,
            8 => MSLevel::MS2,
            9 => MSLevel::MS2,
            _ => MSLevel::Unknown,
        }
    }
}

impl Default for MSLevel {
    fn default() -> (level: MSLevel)
        ensures
            level == MSLevel::Unknown,
    {
        MSLevel::Unknown
    }
}

/// The acquisition mode of a whole dataset.
#[derive(Debug, PartialEq, Eq, Clone, Copy, Structural)]
pub enum AcquisitionType {
    DDAPASEF,
    DIAPASEF,
    /// Default value.
    Unknown,
}

impl Default for AcquisitionType {
    fn default() -> (acquisition: AcquisitionType)
        ensures
            acquisition == AcquisitionType::Unknown,
    {
        AcquisitionType::Unknown
    }
}

/// One DIA isolation-window configuration. The reader only hands it on, so
/// the mass and energy columns are kept as binary64 bit patterns.
#[derive(Debug, PartialEq, Eq)]
pub struct QuadrupoleSettings {
    pub index: usize,
    pub scan_starts: Vec<usize>,
    pub scan_ends: Vec<usize>,
    pub isolation_mz: Vec<u64>,
    pub isolation_width: Vec<u64>,
    pub collision_energy: Vec<u64>,
}

impl QuadrupoleSettings {
    /// The sentinel used by frames without an isolation window.
    pub open spec fn is_default(&self) -> bool {
        &&& self.index == 0
        &&& self.scan_starts@.len() == 0
        &&& self.scan_ends@.len() == 0
        &&& self.isolation_mz@.len() == 0
        &&& self.isolation_width@.len() == 0
        &&& self.collision_energy@.len() == 0
    }
}

impl Default for QuadrupoleSettings {
    fn default() -> (settings: QuadrupoleSettings)
        ensures
            settings.is_default(),
    {
        QuadrupoleSettings {
            index: 0,
            scan_starts: Vec::new(),
            scan_ends: Vec::new(),
            isolation_mz: Vec::new(),
            isolation_width: Vec::new(),
            collision_energy: Vec::new(),
        }
    }
}

/// `Arc::clone` on a window configuration: the new handle points at the same
/// shared value as `settings`.
#[verifier::external_body]
pub(crate) fn share_settings(settings: &Arc<QuadrupoleSettings>) -> (handle: Arc<
    QuadrupoleSettings,
>)
    ensures
        handle == *settings,
{
    Arc::clone(settings)
}

/// MALDI-specific metadata attached to a frame for imaging MS.
/// Physical positions and laser settings are binary64 bit patterns.
#[derive(Debug, PartialEq, Eq)]
pub struct MaldiInfo {
    /// Spot name identifier
    pub spot_name: String,
    /// X pixel coordinate (grid index)
    pub pixel_x: i32,
    /// Y pixel coordinate (grid index)
    pub pixel_y: i32,
    /// X position in micrometers (physical coordinate)
    pub position_x_um: Option<u64>,
    /// Y position in micrometers (physical coordinate)
    pub position_y_um: Option<u64>,
    /// Laser power setting
    pub laser_power: Option<u64>,
    /// Laser repetition rate
    pub laser_rep_rate: Option<u64>,
    /// Number of laser shots
    pub laser_shots: Option<i32>,
}

impl Clone for MaldiInfo {
    fn clone(&self) -> (copy: MaldiInfo)
        ensures
            copy == *self,
    {
        MaldiInfo {
            spot_name: self.spot_name.clone(),
            pixel_x: self.pixel_x,
            pixel_y: self.pixel_y,
            position_x_um: self.position_x_um,
            position_y_um: self.position_y_um,
            laser_power: self.laser_power,
            laser_rep_rate: self.laser_rep_rate,
            laser_shots: self.laser_shots,
        }
    }
}

/// A frame with all unprocessed data as it was acquired.
///
/// `rt_in_seconds` and `accumulation_time` hold binary64 bit patterns; the
/// intensity correction factor is the reciprocal of the accumulation time.
#[derive(Debug, PartialEq, Eq)]
pub struct Frame {
    pub scan_offsets: Vec<usize>,
    pub tof_indices: Vec<u32>,
    pub intensities: Vec<u32>,
    pub index: usize,
    pub rt_in_seconds: u64,
    pub acquisition_type: AcquisitionType,
    pub ms_level: MSLevel,
    pub quadrupole_settings: Arc<QuadrupoleSettings>,
    pub accumulation_time: u64,
    pub window_group: u8,
    /// MALDI imaging metadata (only present for MALDI-TIMS-MSI data)
    pub maldi_info: Option<MaldiInfo>,
}

impl Frame {
    /// Everything but the peak arrays agrees between the two frames.
    pub open spec fn same_metadata(&self, other: &Frame) -> bool {
        &&& self.index == other.index
        &&& self.rt_in_seconds == other.rt_in_seconds
        &&& self.acquisition_type == other.acquisition_type
        &&& self.ms_level == other.ms_level
        &&& self.quadrupole_settings == other.quadrupole_settings
        &&& self.accumulation_time == other.accumulation_time
        &&& self.window_group == other.window_group
        &&& self.maldi_info == other.maldi_info
    }

    /// No scan and no peak has been filled in.
    pub open spec fn has_no_peaks(&self) -> bool {
        &&& self.scan_offsets@.len() == 0
        &&& self.tof_indices@.len() == 0
        &&& self.intensities@.len() == 0
    }

    /// The number of scans that the offsets delimit.
    pub open spec fn scan_count(&self) -> int {
        self.scan_offsets@.len() - 1
    }

    /// The shape that every decoded frame has: the offsets start at 0, never
    /// decrease and end at the number of peaks, which both peak arrays share.
    pub open spec fn peaks_well_formed(&self) -> bool {
        &&& self.scan_offsets@.len() >= 1
        &&& self.scan_offsets@[0] == 0
        &&& self.scan_offsets@[self.scan_count()] == self.tof_indices@.len()
        &&& self.intensities@.len() == self.tof_indices@.len()
        &&& forall|i: int, j: int|
            0 <= i <= j <= self.scan_count() ==> #[trigger] self.scan_offsets@[i]
                <= #[trigger] self.scan_offsets@[j]
    }

    /// The peak arrays agree between the two frames.
    pub open spec fn same_peaks(&self, other: &Frame) -> bool {
        &&& self.scan_offsets@ == other.scan_offsets@
        &&& self.tof_indices@ == other.tof_indices@
        &&& self.intensities@ == other.intensities@
    }
}

impl Clone for Frame {
    fn clone(&self) -> (copy: Frame)
        ensures
            copy.same_metadata(self),
            copy.same_peaks(self),
    {
        let maldi_info = match &self.maldi_info {
            Some(info) => Some(info.clone()),
            None => None,
        };
        let scan_offsets = self.scan_offsets.clone();
        let tof_indices = self.tof_indices.clone();
        let intensities = self.intensities.clone();
        assert(scan_offsets@ =~= self.scan_offsets@);
        assert(tof_indices@ =~= self.tof_indices@);
        assert(intensities@ =~= self.intensities@);
        Frame {
            scan_offsets,
            tof_indices,
            intensities,
            index: self.index,
            rt_in_seconds: self.rt_in_seconds,
            acquisition_type: self.acquisition_type,
            ms_level: self.ms_level,
            quadrupole_settings: share_settings(&self.quadrupole_settings),
            accumulation_time: self.accumulation_time,
            window_group: self.window_group,
            maldi_info,
        }
    }
}

impl Default for Frame {
    fn default() -> (frame: Frame)
        ensures
            frame.has_no_peaks(),
            frame.index == 0,
            frame.rt_in_seconds == 0,
            frame.acquisition_type == AcquisitionType::Unknown,
            frame.ms_level == MSLevel::Unknown,
            frame.quadrupole_settings.is_default(),
            frame.accumulation_time == 0,
            frame.window_group == 0,
            frame.maldi_info.is_none(),
    {
        Frame {
            scan_offsets: Vec::new(),
            tof_indices: Vec::new(),
            intensities: Vec::new(),
            index: 0,
            rt_in_seconds: 0,
            acquisition_type: AcquisitionType::Unknown,
            ms_level: MSLevel::Unknown,
            quadrupole_settings: Arc::new(QuadrupoleSettings::default()),
            accumulation_time: 0,
            window_group: 0,
            maldi_info: None,
        }
    }
}

} // verus!
