//! The blocks of a SOR file as Rust values, and for each of them the
//! mathematical value that contracts speak of: strings as sequences of
//! characters, vectors as sequences.
use vstd::prelude::*;

verus! {

/// One entry of the map's table of contents: where a later block is and how long it is.
#[derive(Debug, PartialEq, Eq, Hash, Clone)]
pub struct BlockInfo {
    /// Name of the block.
    pub identifier: String,
    /// Revision of the block's layout: major (three digits), minor, cosmetic.
    pub revision_number: u16,
    /// Length of the block in bytes.
    pub size: i32,
}

/// What a [`BlockInfo`] holds.
pub struct BlockInfoView {
    pub identifier: Seq<char>,
    pub revision_number: u16,
    pub size: i32,
}

impl View for BlockInfo {
    type V = BlockInfoView;

    open spec fn view(&self) -> BlockInfoView {
        BlockInfoView {
            identifier: self.identifier@,
            revision_number: self.revision_number,
            size: self.size,
        }
    }
}

impl DeepView for BlockInfo {
    type V = BlockInfoView;

    open spec fn deep_view(&self) -> BlockInfoView {
        self@
    }
}

/// The table of contents that opens every file.
#[derive(Debug, PartialEq, Eq, Hash, Clone)]
pub struct MapBlock {
    /// Revision of the file as a whole.
    pub revision_number: u16,
    /// Length in bytes of the map block itself, header included.
    pub block_size: i32,
    /// Number of blocks in the file, the map among them.
    pub block_count: i16,
    /// One entry per block after the map, in the order in which the blocks lie in the file.
    pub block_info: Vec<BlockInfo>,
}

/// What a [`MapBlock`] holds.
pub struct MapBlockView {
    pub revision_number: u16,
    pub block_size: i32,
    pub block_count: i16,
    pub block_info: Seq<BlockInfoView>,
}

impl View for MapBlock {
    type V = MapBlockView;

    open spec fn view(&self) -> MapBlockView {
        MapBlockView {
            revision_number: self.revision_number,
            block_size: self.block_size,
            block_count: self.block_count,
            block_info: self.block_info.deep_view(),
        }
    }
}

impl DeepView for MapBlock {
    type V = MapBlockView;

    open spec fn deep_view(&self) -> MapBlockView {
        self@
    }
}

/// What identifies a test: cable, fibre, locations, operator.
#[derive(Debug, PartialEq, Eq, Hash, Clone)]
pub struct GeneralParametersBlock {
    /// Two-letter language code.
    pub language_code: String,
    /// Cable identifier.
    pub cable_id: String,
    /// Fibre identifier.
    pub fiber_id: String,
    /// Fibre type, usually the number of the ITU-T recommendation (652, 655, ...).
    pub fiber_type: i16,
    /// Nominal test wavelength in nm.
    pub nominal_wavelength: i16,
    /// Where the fibre under test starts.
    pub originating_location: String,
    /// Where the fibre under test ends.
    pub terminating_location: String,
    /// Free-form cable code.
    pub cable_code: String,
    /// Two letters for the condition of the fibre: as built, as repaired, or other.
    pub current_data_flag: String,
    /// Length of the launch lead, in units of 100 ps.
    pub user_offset: i32,
    /// The user offset as a distance, in tenths of the unit of distance.
    pub user_offset_distance: i32,
    /// Who ran the test.
    pub operator: String,
    /// Free-form comment.
    pub comment: String,
}

/// What a [`GeneralParametersBlock`] holds.
pub struct GeneralParametersBlockView {
    pub language_code: Seq<char>,
    pub cable_id: Seq<char>,
    pub fiber_id: Seq<char>,
    pub fiber_type: i16,
    pub nominal_wavelength: i16,
    pub originating_location: Seq<char>,
    pub terminating_location: Seq<char>,
    pub cable_code: Seq<char>,
    pub current_data_flag: Seq<char>,
    pub user_offset: i32,
    pub user_offset_distance: i32,
    pub operator: Seq<char>,
    pub comment: Seq<char>,
}

impl View for GeneralParametersBlock {
    type V = GeneralParametersBlockView;

    open spec fn view(&self) -> GeneralParametersBlockView {
        GeneralParametersBlockView {
            language_code: self.language_code@,
            cable_id: self.cable_id@,
            fiber_id: self.fiber_id@,
            fiber_type: self.fiber_type,
            nominal_wavelength: self.nominal_wavelength,
            originating_location: self.originating_location@,
            terminating_location: self.terminating_location@,
            cable_code: self.cable_code@,
            current_data_flag: self.current_data_flag@,
            user_offset: self.user_offset,
            user_offset_distance: self.user_offset_distance,
            operator: self.operator@,
            comment: self.comment@,
        }
    }
}

impl DeepView for GeneralParametersBlock {
    type V = GeneralParametersBlockView;

    open spec fn deep_view(&self) -> GeneralParametersBlockView {
        self@
    }
}

/// The instrument that took the trace.
#[derive(Debug, PartialEq, Clone)]
pub struct SupplierParametersBlock {
    /// Manufacturer.
    pub supplier_name: String,
    /// Model of the mainframe.
    pub otdr_mainframe_id: String,
    /// Serial number of the mainframe.
    pub otdr_mainframe_sn: String,
    /// Model of the optical module.
    pub optical_module_id: String,
    /// Serial number of the optical module.
    pub optical_module_sn: String,
    /// Software revision.
    pub software_revision: String,
    /// Free text; calibration dates are often found here.
    pub other: String,
}

/// What a [`SupplierParametersBlock`] holds.
pub struct SupplierParametersBlockView {
    pub supplier_name: Seq<char>,
    pub otdr_mainframe_id: Seq<char>,
    pub otdr_mainframe_sn: Seq<char>,
    pub optical_module_id: Seq<char>,
    pub optical_module_sn: Seq<char>,
    pub software_revision: Seq<char>,
    pub other: Seq<char>,
}

impl View for SupplierParametersBlock {
    type V = SupplierParametersBlockView;

    open spec fn view(&self) -> SupplierParametersBlockView {
        SupplierParametersBlockView {
            supplier_name: self.supplier_name@,
            otdr_mainframe_id: self.otdr_mainframe_id@,
            otdr_mainframe_sn: self.otdr_mainframe_sn@,
            optical_module_id: self.optical_module_id@,
            optical_module_sn: self.optical_module_sn@,
            software_revision: self.software_revision@,
            other: self.other@,
        }
    }
}

impl DeepView for SupplierParametersBlock {
    type V = SupplierParametersBlockView;

    open spec fn deep_view(&self) -> SupplierParametersBlockView {
        self@
    }
}

/// The acquisition settings that are needed to read the trace.
#[derive(Debug, PartialEq, Clone)]
pub struct FixedParametersBlock {
    /// Seconds since the Unix epoch.
    pub date_time_stamp: u32,
    /// Two letters for the unit of distance (km, mt, ft, kf, mi).
    pub units_of_distance: String,
    /// Wavelength that was used, in nm.
    pub actual_wavelength: i16,
    /// Fibre between the instrument and the first data point, in units of 100 ps; may be negative.
    pub acquisition_offset: i32,
    /// The acquisition offset as a distance, in tenths of the unit of distance.
    pub acquisition_offset_distance: i32,
    /// Number of pulse widths; the length of each of the three lists below.
    pub total_n_pulse_widths_used: i16,
    /// Pulse widths in ns.
    pub pulse_widths_used: Vec<i16>,
    /// For each pulse width, the time for 10 000 points, in units of 100 ps.
    pub data_spacing: Vec<i32>,
    /// For each pulse width, the number of points stored.
    pub n_data_points_for_pulse_widths_used: Vec<i32>,
    /// Group index of the fibre, times 100 000.
    pub group_index: i32,
    /// Backscatter coefficient.
    pub backscatter_coefficient: i16,
    /// Number of samples averaged.
    pub number_of_averages: i32,
    /// Averaging time in tenths of a second.
    pub averaging_time: u16,
    /// Acquisition range, in units of 100 ps.
    pub acquisition_range: i32,
    /// Acquisition range as a distance, in tenths of the unit of distance.
    pub acquisition_range_distance: i32,
    /// Time between the transceiver and the front panel connector, in units of 100 ps.
    pub front_panel_offset: i32,
    /// Noise floor level.
    pub noise_floor_level: u16,
    /// Scale factor of the noise floor level.
    pub noise_floor_scale_factor: i16,
    /// Attenuation applied by the instrument, in thousandths of a dB.
    pub power_offset_first_point: u16,
    /// Threshold for a loss event, in thousandths of a dB.
    pub loss_threshold: u16,
    /// Threshold for a reflectance event, in thousandths of a dB.
    pub reflectance_threshold: u16,
    /// Loss taken as the end of the fibre, in thousandths of a dB.
    pub end_of_fibre_threshold: u16,
    /// Two letters for the kind of trace (standard, reverse, difference, reference).
    pub trace_type: String,
    /// First window coordinate.
    pub window_coordinate_1: i32,
    /// Second window coordinate.
    pub window_coordinate_2: i32,
    /// Third window coordinate.
    pub window_coordinate_3: i32,
    /// Fourth window coordinate.
    pub window_coordinate_4: i32,
}

/// What a [`FixedParametersBlock`] holds.
pub struct FixedParametersBlockView {
    pub date_time_stamp: u32,
    pub units_of_distance: Seq<char>,
    pub actual_wavelength: i16,
    pub acquisition_offset: i32,
    pub acquisition_offset_distance: i32,
    pub total_n_pulse_widths_used: i16,
    pub pulse_widths_used: Seq<i16>,
    pub data_spacing: Seq<i32>,
    pub n_data_points_for_pulse_widths_used: Seq<i32>,
    pub group_index: i32,
    pub backscatter_coefficient: i16,
    pub number_of_averages: i32,
    pub averaging_time: u16,
    pub acquisition_range: i32,
    pub acquisition_range_distance: i32,
    pub front_panel_offset: i32,
    pub noise_floor_level: u16,
    pub noise_floor_scale_factor: i16,
    pub power_offset_first_point: u16,
    pub loss_threshold: u16,
    pub reflectance_threshold: u16,
    pub end_of_fibre_threshold: u16,
    pub trace_type: Seq<char>,
    pub window_coordinate_1: i32,
    pub window_coordinate_2: i32,
    pub window_coordinate_3: i32,
    pub window_coordinate_4: i32,
}

impl View for FixedParametersBlock {
    type V = FixedParametersBlockView;

    open spec fn view(&self) -> FixedParametersBlockView {
        FixedParametersBlockView {
            date_time_stamp: self.date_time_stamp,
            units_of_distance: self.units_of_distance@,
            actual_wavelength: self.actual_wavelength,
            acquisition_offset: self.acquisition_offset,
            acquisition_offset_distance: self.acquisition_offset_distance,
            total_n_pulse_widths_used: self.total_n_pulse_widths_used,
            pulse_widths_used: self.pulse_widths_used@,
            data_spacing: self.data_spacing@,
            n_data_points_for_pulse_widths_used: self.n_data_points_for_pulse_widths_used@,
            group_index: self.group_index,
            backscatter_coefficient: self.backscatter_coefficient,
            number_of_averages: self.number_of_averages,
            averaging_time: self.averaging_time,
            acquisition_range: self.acquisition_range,
            acquisition_range_distance: self.acquisition_range_distance,
            front_panel_offset: self.front_panel_offset,
            noise_floor_level: self.noise_floor_level,
            noise_floor_scale_factor: self.noise_floor_scale_factor,
            power_offset_first_point: self.power_offset_first_point,
            loss_threshold: self.loss_threshold,
            reflectance_threshold: self.reflectance_threshold,
            end_of_fibre_threshold: self.end_of_fibre_threshold,
            trace_type: self.trace_type@,
            window_coordinate_1: self.window_coordinate_1,
            window_coordinate_2: self.window_coordinate_2,
            window_coordinate_3: self.window_coordinate_3,
            window_coordinate_4: self.window_coordinate_4,
        }
    }
}

impl DeepView for FixedParametersBlock {
    type V = FixedParametersBlockView;

    open spec fn deep_view(&self) -> FixedParametersBlockView {
        self@
    }
}

/// An event found along the fibre: a splice, a connector, a break.
#[derive(Debug, PartialEq, Clone)]
pub struct KeyEvent {
    /// Number of the event.
    pub event_number: i16,
    /// Time from the front panel to the event, in units of 100 ps.
    pub event_propogation_time: i32,
    /// Loss of the fibre leading to the event, in thousandths of a dB per km.
    pub attenuation_coefficient_lead_in_fiber: i16,
    /// Loss of the event, in thousandths of a dB.
    pub event_loss: i16,
    /// Reflectance of the event, in thousandths of a dB.
    pub event_reflectance: i32,
    /// Six characters: kind of reflection, how the event was found, landmark number.
    pub event_code: String,
    /// Two letters: two point, least squares, or other.
    pub loss_measurement_technique: String,
    /// First marker.
    pub marker_location_1: i32,
    /// Second marker.
    pub marker_location_2: i32,
    /// Third marker.
    pub marker_location_3: i32,
    /// Fourth marker.
    pub marker_location_4: i32,
    /// Fifth marker.
    pub marker_location_5: i32,
    /// Free-form comment.
    pub comment: String,
}

/// What a [`KeyEvent`] holds.
pub struct KeyEventView {
    pub event_number: i16,
    pub event_propogation_time: i32,
    pub attenuation_coefficient_lead_in_fiber: i16,
    pub event_loss: i16,
    pub event_reflectance: i32,
    pub event_code: Seq<char>,
    pub loss_measurement_technique: Seq<char>,
    pub marker_location_1: i32,
    pub marker_location_2: i32,
    pub marker_location_3: i32,
    pub marker_location_4: i32,
    pub marker_location_5: i32,
    pub comment: Seq<char>,
}

impl View for KeyEvent {
    type V = KeyEventView;

    open spec fn view(&self) -> KeyEventView {
        KeyEventView {
            event_number: self.event_number,
            event_propogation_time: self.event_propogation_time,
            attenuation_coefficient_lead_in_fiber: self.attenuation_coefficient_lead_in_fiber,
            event_loss: self.event_loss,
            event_reflectance: self.event_reflectance,
            event_code: self.event_code@,
            loss_measurement_technique: self.loss_measurement_technique@,
            marker_location_1: self.marker_location_1,
            marker_location_2: self.marker_location_2,
            marker_location_3: self.marker_location_3,
            marker_location_4: self.marker_location_4,
            marker_location_5: self.marker_location_5,
            comment: self.comment@,
        }
    }
}

impl DeepView for KeyEvent {
    type V = KeyEventView;

    open spec fn deep_view(&self) -> KeyEventView {
        self@
    }
}

/// The event that closes the list. It has the fields of any event and, after them, the figures
/// for the fibre as a whole.
#[derive(Debug, PartialEq, Clone)]
pub struct LastKeyEvent {
    /// Number of the event.
    pub event_number: i16,
    /// Time from the front panel to the event, in units of 100 ps.
    pub event_propogation_time: i32,
    /// Loss of the fibre leading to the event, in thousandths of a dB per km.
    pub attenuation_coefficient_lead_in_fiber: i16,
    /// Loss of the event, in thousandths of a dB.
    pub event_loss: i16,
    /// Reflectance of the event, in thousandths of a dB.
    pub event_reflectance: i32,
    /// Six characters: kind of reflection, how the event was found, landmark number.
    pub event_code: String,
    /// Two letters: two point, least squares, or other.
    pub loss_measurement_technique: String,
    /// First marker.
    pub marker_location_1: i32,
    /// Second marker.
    pub marker_location_2: i32,
    /// Third marker.
    pub marker_location_3: i32,
    /// Fourth marker.
    pub marker_location_4: i32,
    /// Fifth marker.
    pub marker_location_5: i32,
    /// Free-form comment.
    pub comment: String,
    /// Loss between the two markers below, in thousandths of a dB.
    pub end_to_end_loss: i32,
    /// Start of the span over which the loss was measured.
    pub end_to_end_marker_position_1: i32,
    /// End of the span over which the loss was measured.
    pub end_to_end_marker_position_2: i32,
    /// Return loss between the two markers below, in thousandths of a dB.
    pub optical_return_loss: u16,
    /// Start of the span over which the return loss was measured.
    pub optical_return_loss_marker_position_1: i32,
    /// End of the span over which the return loss was measured.
    pub optical_return_loss_marker_position_2: i32,
}

/// What a [`LastKeyEvent`] holds.
pub struct LastKeyEventView {
    pub event_number: i16,
    pub event_propogation_time: i32,
    pub attenuation_coefficient_lead_in_fiber: i16,
    pub event_loss: i16,
    pub event_reflectance: i32,
    pub event_code: Seq<char>,
    pub loss_measurement_technique: Seq<char>,
    pub marker_location_1: i32,
    pub marker_location_2: i32,
    pub marker_location_3: i32,
    pub marker_location_4: i32,
    pub marker_location_5: i32,
    pub comment: Seq<char>,
    pub end_to_end_loss: i32,
    pub end_to_end_marker_position_1: i32,
    pub end_to_end_marker_position_2: i32,
    pub optical_return_loss: u16,
    pub optical_return_loss_marker_position_1: i32,
    pub optical_return_loss_marker_position_2: i32,
}

impl View for LastKeyEvent {
    type V = LastKeyEventView;

    open spec fn view(&self) -> LastKeyEventView {
        LastKeyEventView {
            event_number: self.event_number,
            event_propogation_time: self.event_propogation_time,
            attenuation_coefficient_lead_in_fiber: self.attenuation_coefficient_lead_in_fiber,
            event_loss: self.event_loss,
            event_reflectance: self.event_reflectance,
            event_code: self.event_code@,
            loss_measurement_technique: self.loss_measurement_technique@,
            marker_location_1: self.marker_location_1,
            marker_location_2: self.marker_location_2,
            marker_location_3: self.marker_location_3,
            marker_location_4: self.marker_location_4,
            marker_location_5: self.marker_location_5,
            comment: self.comment@,
            end_to_end_loss: self.end_to_end_loss,
            end_to_end_marker_position_1: self.end_to_end_marker_position_1,
            end_to_end_marker_position_2: self.end_to_end_marker_position_2,
            optical_return_loss: self.optical_return_loss,
            optical_return_loss_marker_position_1: self.optical_return_loss_marker_position_1,
            optical_return_loss_marker_position_2: self.optical_return_loss_marker_position_2,
        }
    }
}

impl DeepView for LastKeyEvent {
    type V = LastKeyEventView;

    open spec fn deep_view(&self) -> LastKeyEventView {
        self@
    }
}

/// The events of a trace: any number of ordinary events, then the last one.
#[derive(Debug, PartialEq, Clone)]
pub struct KeyEvents {
    /// Number of events, the last one among them.
    pub number_of_key_events: i16,
    /// The events before the last.
    pub key_events: Vec<KeyEvent>,
    /// The last event.
    pub last_key_event: LastKeyEvent,
}

/// What a [`KeyEvents`] holds.
pub struct KeyEventsView {
    pub number_of_key_events: i16,
    pub key_events: Seq<KeyEventView>,
    pub last_key_event: LastKeyEventView,
}

impl View for KeyEvents {
    type V = KeyEventsView;

    open spec fn view(&self) -> KeyEventsView {
        KeyEventsView {
            number_of_key_events: self.number_of_key_events,
            key_events: self.key_events.deep_view(),
            last_key_event: self.last_key_event@,
        }
    }
}

impl DeepView for KeyEvents {
    type V = KeyEventsView;

    open spec fn deep_view(&self) -> KeyEventsView {
        self@
    }
}

/// A point in the real world that an event is tied to.
#[derive(Debug, PartialEq, Clone)]
pub struct Landmark {
    /// Number of the landmark.
    pub landmark_number: i16,
    /// Two letters for the kind of landmark.
    pub landmark_code: String,
    /// Time from the user offset to the landmark, in units of 100 ps.
    pub landmark_location: i32,
    /// Number of the event that belongs to the landmark.
    pub related_event_number: i16,
    /// Longitude.
    pub gps_longitude: i32,
    /// Latitude.
    pub gps_latitude: i32,
    /// Difference between optical path and cable length, in hundredths of a percent.
    pub fiber_correction_factor_lead_in_fiber: i16,
    /// Sheath mark where the cable enters.
    pub sheath_marker_entering_landmark: i32,
    /// Sheath mark where the cable leaves.
    pub sheath_marker_leaving_landmark: i32,
    /// Two letters for the unit of the sheath marks.
    pub units_of_sheath_marks_leaving_landmark: String,
    /// Mode field diameter of the fibre that leaves.
    pub mode_field_diameter_leaving_landmark: i16,
    /// Free-form comment.
    pub comment: String,
}

/// What a [`Landmark`] holds.
pub struct LandmarkView {
    pub landmark_number: i16,
    pub landmark_code: Seq<char>,
    pub landmark_location: i32,
    pub related_event_number: i16,
    pub gps_longitude: i32,
    pub gps_latitude: i32,
    pub fiber_correction_factor_lead_in_fiber: i16,
    pub sheath_marker_entering_landmark: i32,
    pub sheath_marker_leaving_landmark: i32,
    pub units_of_sheath_marks_leaving_landmark: Seq<char>,
    pub mode_field_diameter_leaving_landmark: i16,
    pub comment: Seq<char>,
}

impl View for Landmark {
    type V = LandmarkView;

    open spec fn view(&self) -> LandmarkView {
        LandmarkView {
            landmark_number: self.landmark_number,
            landmark_code: self.landmark_code@,
            landmark_location: self.landmark_location,
            related_event_number: self.related_event_number,
            gps_longitude: self.gps_longitude,
            gps_latitude: self.gps_latitude,
            fiber_correction_factor_lead_in_fiber: self.fiber_correction_factor_lead_in_fiber,
            sheath_marker_entering_landmark: self.sheath_marker_entering_landmark,
            sheath_marker_leaving_landmark: self.sheath_marker_leaving_landmark,
            units_of_sheath_marks_leaving_landmark: self.units_of_sheath_marks_leaving_landmark@,
            mode_field_diameter_leaving_landmark: self.mode_field_diameter_leaving_landmark,
            comment: self.comment@,
        }
    }
}

impl DeepView for Landmark {
    type V = LandmarkView;

    open spec fn deep_view(&self) -> LandmarkView {
        self@
    }
}

/// The samples that share one scale factor.
#[derive(Debug, PartialEq, Clone)]
pub struct DataPointsAtScaleFactor {
    /// Number of samples.
    pub n_points: i32,
    /// Scale factor, times 1000.
    pub scale_factor: i16,
    /// The samples, in thousandths of a dB.
    pub data: Vec<u16>,
}

/// What a [`DataPointsAtScaleFactor`] holds.
pub struct DataPointsAtScaleFactorView {
    pub n_points: i32,
    pub scale_factor: i16,
    pub data: Seq<u16>,
}

impl View for DataPointsAtScaleFactor {
    type V = DataPointsAtScaleFactorView;

    open spec fn view(&self) -> DataPointsAtScaleFactorView {
        DataPointsAtScaleFactorView {
            n_points: self.n_points,
            scale_factor: self.scale_factor,
            data: self.data@,
        }
    }
}

impl DeepView for DataPointsAtScaleFactor {
    type V = DataPointsAtScaleFactorView;

    open spec fn deep_view(&self) -> DataPointsAtScaleFactorView {
        self@
    }
}

/// The trace itself: one group of samples per scale factor.
#[derive(Debug, PartialEq, Clone)]
pub struct DataPoints {
    /// Number of samples over all groups, as the file declares it.
    pub number_of_data_points: i32,
    /// Number of groups.
    pub total_number_scale_factors_used: i16,
    /// The groups.
    pub scale_factors: Vec<DataPointsAtScaleFactor>,
}

/// What a [`DataPoints`] holds.
pub struct DataPointsView {
    pub number_of_data_points: i32,
    pub total_number_scale_factors_used: i16,
    pub scale_factors: Seq<DataPointsAtScaleFactorView>,
}

impl View for DataPoints {
    type V = DataPointsView;

    open spec fn view(&self) -> DataPointsView {
        DataPointsView {
            number_of_data_points: self.number_of_data_points,
            total_number_scale_factors_used: self.total_number_scale_factors_used,
            scale_factors: self.scale_factors.deep_view(),
        }
    }
}

impl DeepView for DataPoints {
    type V = DataPointsView;

    open spec fn deep_view(&self) -> DataPointsView {
        self@
    }
}

/// The landmarks of a link.
#[derive(Debug, PartialEq, Clone)]
pub struct LinkParameters {
    /// Number of landmarks.
    pub number_of_landmarks: i16,
    /// The landmarks.
    pub landmarks: Vec<Landmark>,
}

/// What a [`LinkParameters`] holds.
pub struct LinkParametersView {
    pub number_of_landmarks: i16,
    pub landmarks: Seq<LandmarkView>,
}

impl View for LinkParameters {
    type V = LinkParametersView;

    open spec fn view(&self) -> LinkParametersView {
        LinkParametersView {
            number_of_landmarks: self.number_of_landmarks,
            landmarks: self.landmarks.deep_view(),
        }
    }
}

impl DeepView for LinkParameters {
    type V = LinkParametersView;

    open spec fn deep_view(&self) -> LinkParametersView {
        self@
    }
}

/// A block whose name is not one of the standard ones. Its body is kept as it is.
#[derive(Debug, PartialEq, Clone)]
pub struct ProprietaryBlock {
    /// Name that the block carries.
    pub header: String,
    /// What follows the name, uninterpreted.
    pub data: Vec<u8>,
}

/// What a [`ProprietaryBlock`] holds.
pub struct ProprietaryBlockView {
    pub header: Seq<char>,
    pub data: Seq<u8>,
}

impl View for ProprietaryBlock {
    type V = ProprietaryBlockView;

    open spec fn view(&self) -> ProprietaryBlockView {
        ProprietaryBlockView {
            header: self.header@,
            data: self.data@,
        }
    }
}

impl DeepView for ProprietaryBlock {
    type V = ProprietaryBlockView;

    open spec fn deep_view(&self) -> ProprietaryBlockView {
        self@
    }
}

/// The checksum that a file carries.
#[derive(Debug, PartialEq, Clone)]
pub struct ChecksumBlock {
    /// The stored 16-bit value.
    pub checksum: i16,
}

/// What a [`ChecksumBlock`] holds.
pub struct ChecksumBlockView {
    pub checksum: i16,
}

impl View for ChecksumBlock {
    type V = ChecksumBlockView;

    open spec fn view(&self) -> ChecksumBlockView {
        ChecksumBlockView {
            checksum: self.checksum,
        }
    }
}

impl DeepView for ChecksumBlock {
    type V = ChecksumBlockView;

    open spec fn deep_view(&self) -> ChecksumBlockView {
        self@
    }
}

/// A whole file: the map, each standard block that was found, and the proprietary blocks in
/// file order.
#[derive(Debug, PartialEq, Clone)]
pub struct SORFile {
    /// The table of contents.
    pub map: MapBlock,
    /// General parameters, if present.
    pub general_parameters: Option<GeneralParametersBlock>,
    /// Supplier parameters, if present.
    pub supplier_parameters: Option<SupplierParametersBlock>,
    /// Fixed parameters, if present.
    pub fixed_parameters: Option<FixedParametersBlock>,
    /// Key events, if present.
    pub key_events: Option<KeyEvents>,
    /// Link parameters. Parsing never fills them and writing leaves them out.
    pub link_parameters: Option<LinkParameters>,
    /// Data points, if present.
    pub data_points: Option<DataPoints>,
    /// Vendor blocks, in the order of the map.
    pub proprietary_blocks: Vec<ProprietaryBlock>,
    /// Checksum block, if present.
    pub checksum: Option<ChecksumBlock>,
}

/// What a [`SORFile`] holds.
pub struct SORFileView {
    pub map: MapBlockView,
    pub general_parameters: Option<GeneralParametersBlockView>,
    pub supplier_parameters: Option<SupplierParametersBlockView>,
    pub fixed_parameters: Option<FixedParametersBlockView>,
    pub key_events: Option<KeyEventsView>,
    pub link_parameters: Option<LinkParametersView>,
    pub data_points: Option<DataPointsView>,
    pub proprietary_blocks: Seq<ProprietaryBlockView>,
    pub checksum: Option<ChecksumBlockView>,
}

impl View for SORFile {
    type V = SORFileView;

    open spec fn view(&self) -> SORFileView {
        SORFileView {
            map: self.map@,
            general_parameters: self.general_parameters.deep_view(),
            supplier_parameters: self.supplier_parameters.deep_view(),
            fixed_parameters: self.fixed_parameters.deep_view(),
            key_events: self.key_events.deep_view(),
            link_parameters: self.link_parameters.deep_view(),
            data_points: self.data_points.deep_view(),
            proprietary_blocks: self.proprietary_blocks.deep_view(),
            checksum: self.checksum.deep_view(),
        }
    }
}

impl DeepView for SORFile {
    type V = SORFileView;

    open spec fn deep_view(&self) -> SORFileView {
        self@
    }
}

/// How a file's checksum compares with what was computed from its bytes.
#[derive(Debug, Clone, Copy, PartialEq, Eq)]
pub enum ChecksumStatus {
    /// The file has no checksum block.
    Missing,
    /// One of the ways of computing the checksum gives the stored value.
    Valid,
    /// None of them does.
    Mismatch,
    /// The map does not say where the checksum block lies, or places it outside the file.
    Error,
}

/// Which bytes the matching checksum was computed over.
#[derive(Debug, Clone, Copy, PartialEq, Eq)]
pub enum ChecksumStrategy {
    /// The bytes before the checksum block: the map and the blocks that precede it.
    PrecedingBytes,
    /// The whole file, with the two bytes of the stored value set to zero.
    WholeFileChecksumZeroed,
    /// The whole file without the checksum block.
    WholeFileExcludingBlock,
}

/// What checking a file's checksum found.
#[derive(Debug, Clone, PartialEq, Eq)]
pub struct ChecksumValidationResult {
    /// The outcome.
    pub status: ChecksumStatus,
    /// The value that the file stores, once the checksum block was located.
    pub stored: Option<u16>,
    /// The computed value, where it equals the stored one.
    pub matched: Option<u16>,
    /// The bytes over which that value was computed.
    pub matched_by: Option<ChecksumStrategy>,
}

} // verus!
