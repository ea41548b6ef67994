//! The figures of measurement payloads as text, and the phrases they stand in.
//!
//! The payloads hold floating-point numbers, so each figure is rendered by the standard library
//! and named by the payload, the field and the number of decimal places.
use vstd::prelude::*;
use vstd::string::*;

use discovery_telemetry::{
    Baro as WireBaro, Fused as WireFused, Imu as WireImu, Mag as WireMag,
};

use crate::text;

verus! {

/// The most decimal places a figure is rendered with.
pub const MAX_PLACES: usize = 2;

/// A field of an IMU payload with `places` decimal places. The fields are the accelerations X, Y
/// and Z, the rates X, Y and Z, and the temperature.
pub uninterp spec fn imu_number(s: WireImu, field: nat, places: nat) -> Seq<char>;

/// A field of a barometer payload with `places` decimal places. The fields are the pressure and
/// the temperature.
pub uninterp spec fn baro_number(s: WireBaro, field: nat, places: nat) -> Seq<char>;

/// A field of a magnetometer payload with `places` decimal places. The fields are the field X, Y
/// and Z, and the temperature.
pub uninterp spec fn mag_number(s: WireMag, field: nat, places: nat) -> Seq<char>;

/// A field of a fused-state payload with `places` decimal places. The fields are roll, pitch, yaw,
/// altitude, vertical speed and barometer residual.
pub uninterp spec fn fused_number(s: WireFused, field: nat, places: nat) -> Seq<char>;

/// Renders a field of `discovery_telemetry::Imu` with `std::format`: the text depends on the
/// payload, the field and the number of places alone.
#[verifier::external_body]
fn imu_number_text(s: &WireImu, field: usize, places: usize) -> (t: String)
    requires
        field < 7,
        places <= MAX_PLACES,
    ensures
        t@ == imu_number(*s, field as nat, places as nat),
{
    let [ax, ay, az] = s.accel_g;
    let [gx, gy, gz] = s.gyro_dps;
    format!("{:.*}", places, [ax, ay, az, gx, gy, gz, s.temp_c][field])
}

/// Renders a field of `discovery_telemetry::Baro` with `std::format`: the text depends on the
/// payload, the field and the number of places alone.
#[verifier::external_body]
fn baro_number_text(s: &WireBaro, field: usize, places: usize) -> (t: String)
    requires
        field < 2,
        places <= MAX_PLACES,
    ensures
        t@ == baro_number(*s, field as nat, places as nat),
{
    format!("{:.*}", places, [s.pressure_hpa, s.temp_c][field])
}

/// Renders a field of `discovery_telemetry::Mag` with `std::format`: the text depends on the
/// payload, the field and the number of places alone.
#[verifier::external_body]
fn mag_number_text(s: &WireMag, field: usize, places: usize) -> (t: String)
    requires
        field < 4,
        places <= MAX_PLACES,
    ensures
        t@ == mag_number(*s, field as nat, places as nat),
{
    let [x, y, z] = s.field_ut;
    format!("{:.*}", places, [x, y, z, s.temp_c][field])
}

/// Renders a field of `discovery_telemetry::Fused` with `std::format`: the text depends on the
/// payload, the field and the number of places alone.
#[verifier::external_body]
fn fused_number_text(s: &WireFused, field: usize, places: usize) -> (t: String)
    requires
        field < 6,
        places <= MAX_PLACES,
    ensures
        t@ == fused_number(*s, field as nat, places as nat),
{
    let air = [s.altitude_m, s.vertical_speed_mps, s.baro_residual_m];
    let all = [s.roll_deg, s.pitch_deg, s.yaw_deg, air[0], air[1], air[2]];
    format!("{:.*}", places, all[field])
}

/// The figures of an IMU payload: accelerations with two places, rates and temperature with one.
pub open spec fn imu_figures(s: WireImu) -> Seq<Seq<char>> {
    seq![
        imu_number(s, 0, 2),
        imu_number(s, 1, 2),
        imu_number(s, 2, 2),
        imu_number(s, 3, 1),
        imu_number(s, 4, 1),
        imu_number(s, 5, 1),
        imu_number(s, 6, 1),
    ]
}

/// The figures of a barometer payload, with two places.
pub open spec fn baro_figures(s: WireBaro) -> Seq<Seq<char>> {
    seq![baro_number(s, 0, 2), baro_number(s, 1, 2)]
}

/// The figures of a magnetometer payload, with one place.
pub open spec fn mag_figures(s: WireMag) -> Seq<Seq<char>> {
    seq![mag_number(s, 0, 1), mag_number(s, 1, 1), mag_number(s, 2, 1), mag_number(s, 3, 1)]
}

/// The figures of a fused state: angles with one place, the rest with two.
pub open spec fn fused_figures(s: WireFused) -> Seq<Seq<char>> {
    seq![
        fused_number(s, 0, 1),
        fused_number(s, 1, 1),
        fused_number(s, 2, 1),
        fused_number(s, 3, 2),
        fused_number(s, 4, 2),
        fused_number(s, 5, 2),
    ]
}

/// The figures of an IMU payload.
pub fn imu_figure_texts(s: &WireImu) -> (v: Vec<String>)
    ensures
        text::texts(v@) == imu_figures(*s),
{
    let v = vec![
        imu_number_text(s, 0, 2),
        imu_number_text(s, 1, 2),
        imu_number_text(s, 2, 2),
        imu_number_text(s, 3, 1),
        imu_number_text(s, 4, 1),
        imu_number_text(s, 5, 1),
        imu_number_text(s, 6, 1),
    ];
    proof {
        assert(text::texts(v@) =~= imu_figures(*s));
    }
    v
}

/// The figures of a barometer payload.
pub fn baro_figure_texts(s: &WireBaro) -> (v: Vec<String>)
    ensures
        text::texts(v@) == baro_figures(*s),
{
    let v = vec![baro_number_text(s, 0, 2), baro_number_text(s, 1, 2)];
    proof {
        assert(text::texts(v@) =~= baro_figures(*s));
    }
    v
}

/// The figures of a magnetometer payload.
pub fn mag_figure_texts(s: &WireMag) -> (v: Vec<String>)
    ensures
        text::texts(v@) == mag_figures(*s),
{
    let v = vec![
        mag_number_text(s, 0, 1),
        mag_number_text(s, 1, 1),
        mag_number_text(s, 2, 1),
        mag_number_text(s, 3, 1),
    ];
    proof {
        assert(text::texts(v@) =~= mag_figures(*s));
    }
    v
}

/// The figures of a fused state.
pub fn fused_figure_texts(s: &WireFused) -> (v: Vec<String>)
    ensures
        text::texts(v@) == fused_figures(*s),
{
    let v = vec![
        fused_number_text(s, 0, 1),
        fused_number_text(s, 1, 1),
        fused_number_text(s, 2, 1),
        fused_number_text(s, 3, 2),
        fused_number_text(s, 4, 2),
        fused_number_text(s, 5, 2),
    ];
    proof {
        assert(text::texts(v@) =~= fused_figures(*s));
    }
    v
}

/// How the figures of an IMU payload are written out.
pub open spec fn imu_phrase(n: Seq<Seq<char>>) -> Seq<char> {
    "accel[g]="@ + n[0] + ","@ + n[1] + ","@ + n[2] + " gyro[dps]="@ + n[3] + ","@ + n[4] + ","@
        + n[5] + " temp="@ + n[6] + "C"@
}

/// How the figures of a barometer payload are written out.
pub open spec fn baro_phrase(n: Seq<Seq<char>>) -> Seq<char> {
    "baro press="@ + n[0] + "hPa temp="@ + n[1] + "C"@
}

/// How the figures of a magnetometer payload are written out.
pub open spec fn mag_phrase(n: Seq<Seq<char>>) -> Seq<char> {
    "mag field[uT]="@ + n[0] + ","@ + n[1] + ","@ + n[2] + " temp="@ + n[3] + "C"@
}

/// How the figures of a fused state are written out, but for the residual.
pub open spec fn fused_phrase(n: Seq<Seq<char>>) -> Seq<char> {
    "fus roll="@ + n[0] + " pitch="@ + n[1] + " yaw="@ + n[2] + "deg alt="@ + n[3] + "m vz="@
        + n[4] + "m/s"@
}

/// The figures of an IMU payload, written out.
pub fn imu_phrase_text(n: &Vec<String>) -> (s: String)
    requires
        n@.len() == 7,
    ensures
        s@ == imu_phrase(text::texts(n@)),
{
    let mut s = "accel[g]=".to_owned();
    s.append(n[0].as_str());
    s.append(",");
    s.append(n[1].as_str());
    s.append(",");
    s.append(n[2].as_str());
    s.append(" gyro[dps]=");
    s.append(n[3].as_str());
    s.append(",");
    s.append(n[4].as_str());
    s.append(",");
    s.append(n[5].as_str());
    s.append(" temp=");
    s.append(n[6].as_str());
    s.append("C");
    s
}

/// The figures of a barometer payload, written out.
pub fn baro_phrase_text(n: &Vec<String>) -> (s: String)
    requires
        n@.len() == 2,
    ensures
        s@ == baro_phrase(text::texts(n@)),
{
    let mut s = "baro press=".to_owned();
    s.append(n[0].as_str());
    s.append("hPa temp=");
    s.append(n[1].as_str());
    s.append("C");
    s
}

/// The figures of a magnetometer payload, written out.
pub fn mag_phrase_text(n: &Vec<String>) -> (s: String)
    requires
        n@.len() == 4,
    ensures
        s@ == mag_phrase(text::texts(n@)),
{
    let mut s = "mag field[uT]=".to_owned();
    s.append(n[0].as_str());
    s.append(",");
    s.append(n[1].as_str());
    s.append(",");
    s.append(n[2].as_str());
    s.append(" temp=");
    s.append(n[3].as_str());
    s.append("C");
    s
}

/// The figures of a fused state, written out but for the residual.
pub fn fused_phrase_text(n: &Vec<String>) -> (s: String)
    requires
        n@.len() == 6,
    ensures
        s@ == fused_phrase(text::texts(n@)),
{
    let mut s = "fus roll=".to_owned();
    s.append(n[0].as_str());
    s.append(" pitch=");
    s.append(n[1].as_str());
    s.append(" yaw=");
    s.append(n[2].as_str());
    s.append("deg alt=");
    s.append(n[3].as_str());
    s.append("m vz=");
    s.append(n[4].as_str());
    s.append("m/s");
    s
}

} // verus!
