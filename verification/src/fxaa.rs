//! Settings of the edge-smoothing stage.

use vstd::prelude::*;

verus! {

/// The local contrast above which an edge is always smoothed.
#[derive(Clone, Copy, Debug, PartialEq, Eq, Structural)]
pub enum EdgeThresholdMax {
    Low,
    Medium,
    High,
    Ultra,
    Extreme,
}

impl EdgeThresholdMax {
    /// The setting's name as shown to the user.
    pub open spec fn label_text(self) -> Seq<char> {
        match self {
            EdgeThresholdMax::Low => "Low"@,
            EdgeThresholdMax::Medium => "Medium"@,
            EdgeThresholdMax::High => "High"@,
            EdgeThresholdMax::Ultra => "Ultra"@,
            EdgeThresholdMax::Extreme => "Extreme"@,
        }
    }

    /// The threshold in ten-thousandths.
    pub open spec fn ten_thousandths(self) -> u32 {
        match self {
            EdgeThresholdMax::Low => 2500,
            EdgeThresholdMax::Medium => 1660,
            EdgeThresholdMax::High => 1250,
            EdgeThresholdMax::Ultra => 630,
            EdgeThresholdMax::Extreme => 310,
        }
    }

    /// Names the setting.
    pub fn label(self) -> (name: String)
        ensures
            name@ == self.label_text(),
    {
        match self {
            EdgeThresholdMax::Low => "Low".to_owned(),
            EdgeThresholdMax::Medium => "Medium".to_owned(),
            EdgeThresholdMax::High => "High".to_owned(),
            EdgeThresholdMax::Ultra => "Ultra".to_owned(),
            EdgeThresholdMax::Extreme => "Extreme".to_owned(),
        }
    }

    /// Reads the threshold in ten-thousandths.
    pub fn threshold(self) -> (t: u32)
        ensures
            t == self.ten_thousandths(),
    {
        match self {
            EdgeThresholdMax::Low => 2500,
            EdgeThresholdMax::Medium => 1660,
            EdgeThresholdMax::High => 1250,
            EdgeThresholdMax::Ultra => 630,
            EdgeThresholdMax::Extreme => 310,
        }
    }
}

/// The local contrast below which an edge is never smoothed.
#[derive(Clone, Copy, Debug, PartialEq, Eq, Structural)]
pub enum EdgeThresholdMin {
    Low,
    Medium,
    High,
    Ultra,
    Extreme,
}

impl EdgeThresholdMin {
    /// The setting's name as shown to the user.
    pub open spec fn label_text(self) -> Seq<char> {
        match self {
            EdgeThresholdMin::Low => "Low"@,
            EdgeThresholdMin::Medium => "Medium"@,
            EdgeThresholdMin::High => "High"@,
            EdgeThresholdMin::Ultra => "Ultra"@,
            EdgeThresholdMin::Extreme => "Extreme"@,
        }
    }

    /// The threshold in ten-thousandths.
    pub open spec fn ten_thousandths(self) -> u32 {
        match self {
            EdgeThresholdMin::Low => 833,
            EdgeThresholdMin::Medium => 625,
            EdgeThresholdMin::High => 312,
            EdgeThresholdMin::Ultra => 156,
            EdgeThresholdMin::Extreme => 78,
        }
    }

    /// Names the setting.
    pub fn label(self) -> (name: String)
        ensures
            name@ == self.label_text(),
    {
        match self {
            EdgeThresholdMin::Low => "Low".to_owned(),
            EdgeThresholdMin::Medium => "Medium".to_owned(),
            EdgeThresholdMin::High => "High".to_owned(),
            EdgeThresholdMin::Ultra => "Ultra".to_owned(),
            EdgeThresholdMin::Extreme => "Extreme".to_owned(),
        }
    }

    /// Reads the threshold in ten-thousandths.
    pub fn threshold(self) -> (t: u32)
        ensures
            t == self.ten_thousandths(),
    {
        match self {
            EdgeThresholdMin::Low => 833,
            EdgeThresholdMin::Medium => 625,
            EdgeThresholdMin::High => 312,
            EdgeThresholdMin::Ultra => 156,
            EdgeThresholdMin::Extreme => 78,
        }
    }
}

/// What the user has chosen for the edge-smoothing stage. The subpixel
/// quality is in ten-thousandths.
#[derive(Clone, Copy, Debug, PartialEq, Eq, Structural)]
pub struct FXAADetails {
    pub edge_threshold_min: EdgeThresholdMin,
    pub edge_threshold_max: EdgeThresholdMax,
    pub iterations: i32,
    pub subpixel_quality: u32,
}

/// The shape in which the edge-smoothing settings are handed to the device.
/// Thresholds and subpixel quality are in ten-thousandths.
#[derive(Clone, Copy, Debug, PartialEq, Eq, Structural)]
pub struct FXAADetailsUniform {
    pub edge_threshold_min: u32,
    pub edge_threshold_max: u32,
    pub iterations: i32,
    pub subpixel_quality: u32,
}

impl FXAADetailsUniform {
    /// The record that mirrors `value`.
    pub open spec fn of(value: FXAADetails) -> FXAADetailsUniform {
        FXAADetailsUniform {
            edge_threshold_min: value.edge_threshold_min.ten_thousandths(),
            edge_threshold_max: value.edge_threshold_max.ten_thousandths(),
            iterations: value.iterations,
            subpixel_quality: value.subpixel_quality,
        }
    }

    /// Refreshes the record from `value`.
    pub fn update(&mut self, value: &FXAADetails)
        ensures
            *final(self) == FXAADetailsUniform::of(*value),
    {
        self.edge_threshold_min = value.edge_threshold_min.threshold();
        self.edge_threshold_max = value.edge_threshold_max.threshold();
        self.iterations = value.iterations;
        self.subpixel_quality = value.subpixel_quality;
    }
}

impl Default for FXAADetailsUniform {
    fn default() -> (record: FXAADetailsUniform)
        ensures
            record == (FXAADetailsUniform {
                edge_threshold_min: 0,
                edge_threshold_max: 0,
                iterations: 0,
                subpixel_quality: 0,
            }),
    {
        FXAADetailsUniform {
            edge_threshold_min: 0,
            edge_threshold_max: 0,
            iterations: 0,
            subpixel_quality: 0,
        }
    }
}

} // verus!
