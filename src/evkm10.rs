//! The 120-byte frame of the receiver, its projection to text fields, and the
//! batch decoding of a capture into frames.
use vstd::prelude::*;

use crate::error::{size_mismatch, DecodeError};
use crate::gnss_data::{
    indicator_char, indicator_of, lat_long_result, numeric_result, satellites_of, utc_of,
    GnssAvailableSatellites, GnssLatLongMeasurement, GnssNumericMeasurement, UtcDateTime,
    INDICATOR_OFFSET, LAT_LONG_LEN, NUMERIC_LEN, SATELLITES_LEN, UNIT_OFFSET, UTC_LEN,
};
use crate::text::{bool_text, bool_to_text, char_text, i32_text, int_text, nat_text, u64_text};

verus! {

/// Width of one frame.
pub const FRAME_LEN: usize = 120;

/// Where each block starts inside a frame. Bytes 6 and 7 and the tail from
/// byte 104 on are padding.
pub const SATELLITES_START: usize = 0;
pub const LATITUDE_START: usize = 8;
pub const LONGITUDE_START: usize = 24;
pub const COURSE_START: usize = 40;
pub const SPEED_START: usize = 64;
pub const TIME_START: usize = 88;

/// Number of text fields of one frame.
pub const FIELD_COUNT: usize = 27;

/// One decoded frame.
#[derive(Debug, Clone, Copy, PartialEq, Eq, Structural)]
pub struct M10GnssDataPoint {
    pub available_satellites: GnssAvailableSatellites,
    pub latitude: GnssLatLongMeasurement,
    pub longitude: GnssLatLongMeasurement,
    pub course_over_ground: GnssNumericMeasurement,
    pub speed_over_ground: GnssNumericMeasurement,
    pub time_of_sample: UtcDateTime,
}

/// The block of `len` bytes at `start` in the frame `b`.
pub open spec fn block(b: Seq<u8>, start: usize, len: usize) -> Seq<u8> {
    b.subrange(start as int, start + len)
}

/// What decoding `b` as one frame gives: a size error, else the first error
/// of its blocks in field order, else the record.
pub open spec fn data_point_result(b: Seq<u8>) -> Result<M10GnssDataPoint, DecodeError> {
    if b.len() != FRAME_LEN {
        Err(size_mismatch(FRAME_LEN, b.len()))
    } else {
        match lat_long_result(block(b, LATITUDE_START, LAT_LONG_LEN)) {
            Err(e) => Err(e),
            Ok(latitude) => match lat_long_result(block(b, LONGITUDE_START, LAT_LONG_LEN)) {
                Err(e) => Err(e),
                Ok(longitude) => match numeric_result(block(b, COURSE_START, NUMERIC_LEN)) {
                    Err(e) => Err(e),
                    Ok(course_over_ground) => match numeric_result(
                        block(b, SPEED_START, NUMERIC_LEN),
                    ) {
                        Err(e) => Err(e),
                        Ok(speed_over_ground) => Ok(
                            M10GnssDataPoint {
                                available_satellites: satellites_of(
                                    block(b, SATELLITES_START, SATELLITES_LEN),
                                ),
                                latitude,
                                longitude,
                                course_over_ground,
                                speed_over_ground,
                                time_of_sample: utc_of(block(b, TIME_START, UTC_LEN)),
                            },
                        ),
                    },
                },
            },
        }
    }
}

/// The raw bits of a floating-point field, to be rendered as a number by
/// whoever holds floating-point formatting.
#[derive(Debug, Clone, Copy, PartialEq, Eq, Structural)]
pub enum FloatBits {
    /// An IEEE-754 single.
    Single(u32),
    /// An IEEE-754 double.
    Double(u64),
}

/// The views of a sequence of strings.
pub open spec fn texts(v: Seq<String>) -> Seq<Seq<char>> {
    v.map_values(|s: String| s@)
}

impl M10GnssDataPoint {
    /// The floating-point fields of the record, in field order: latitude
    /// minutes, longitude minutes, course value, speed value, seconds.
    pub open spec fn spec_float_fields(&self) -> Seq<FloatBits> {
        seq![
            FloatBits::Single(self.latitude.minutes_bits),
            FloatBits::Single(self.longitude.minutes_bits),
            FloatBits::Double(self.course_over_ground.value_bits),
            FloatBits::Double(self.speed_over_ground.value_bits),
            FloatBits::Single(self.time_of_sample.second_bits),
        ]
    }

    /// The text of each field, in export order, with `floats` the text of the
    /// floating-point fields in the order of `spec_float_fields`.
    pub open spec fn fields_text(&self, floats: Seq<Seq<char>>) -> Seq<Seq<char>> {
        let s = self.available_satellites;
        let lat = self.latitude;
        let lon = self.longitude;
        let cog = self.course_over_ground;
        let sog = self.speed_over_ground;
        let t = self.time_of_sample;
        seq![
            nat_text(s.gp as nat),
            nat_text(s.gl as nat),
            nat_text(s.ga as nat),
            nat_text(s.gb as nat),
            nat_text(s.gi as nat),
            nat_text(s.gq as nat),
            bool_text(lat.is_available),
            int_text(lat.degrees as int),
            floats[0],
            seq![indicator_char(lat.indicator)],
            bool_text(lon.is_available),
            int_text(lon.degrees as int),
            floats[1],
            seq![indicator_char(lon.indicator)],
            bool_text(cog.is_available),
            floats[2],
            seq![cog.unit_of_measurement],
            bool_text(sog.is_available),
            floats[3],
            seq![sog.unit_of_measurement],
            nat_text(t.year as nat),
            nat_text(t.month as nat),
            nat_text(t.day as nat),
            nat_text(t.hour as nat),
            nat_text(t.minute as nat),
            floats[4],
            bool_text(t.is_available),
        ]
    }

    /// Decodes one frame of exactly `FRAME_LEN` bytes.
    pub fn from_bytes(bytes: &[u8]) -> (r: Result<Self, DecodeError>)
        ensures
            r == data_point_result(bytes@),
    {
        if bytes.len() != FRAME_LEN {
            return Err(DecodeError::SizeMismatch { expected: FRAME_LEN, actual: bytes.len() });
        }
        let available_satellites = match GnssAvailableSatellites::from_bytes(
            &bytes[SATELLITES_START..SATELLITES_START + SATELLITES_LEN],
        ) {
            Ok(v) => v,
            Err(e) => return Err(e),
        };
        let latitude = match GnssLatLongMeasurement::from_bytes(
            &bytes[LATITUDE_START..LATITUDE_START + LAT_LONG_LEN],
        ) {
            Ok(v) => v,
            Err(e) => return Err(e),
        };
        let longitude = match GnssLatLongMeasurement::from_bytes(
            &bytes[LONGITUDE_START..LONGITUDE_START + LAT_LONG_LEN],
        ) {
            Ok(v) => v,
            Err(e) => return Err(e),
        };
        let course_over_ground = match GnssNumericMeasurement::from_bytes(
            &bytes[COURSE_START..COURSE_START + NUMERIC_LEN],
        ) {
            Ok(v) => v,
            Err(e) => return Err(e),
        };
        let speed_over_ground = match GnssNumericMeasurement::from_bytes(
            &bytes[SPEED_START..SPEED_START + NUMERIC_LEN],
        ) {
            Ok(v) => v,
            Err(e) => return Err(e),
        };
        let time_of_sample = match UtcDateTime::from_bytes(&bytes[TIME_START..TIME_START + UTC_LEN]) {
            Ok(v) => v,
            Err(e) => return Err(e),
        };
        Ok(M10GnssDataPoint {
            available_satellites,
            latitude,
            longitude,
            course_over_ground,
            speed_over_ground,
            time_of_sample,
        })
    }

    /// The raw bits of the floating-point fields, in the order that
    /// `serialize_to_string_vec` takes their text.
    pub fn float_fields(&self) -> (r: [FloatBits; 5])
        ensures
            r@ == self.spec_float_fields(),
    {
        let r = [
            FloatBits::Single(self.latitude.minutes_bits),
            FloatBits::Single(self.longitude.minutes_bits),
            FloatBits::Double(self.course_over_ground.value_bits),
            FloatBits::Double(self.speed_over_ground.value_bits),
            FloatBits::Single(self.time_of_sample.second_bits),
        ];
        assert(r@ =~= self.spec_float_fields());
        r
    }

    /// One string per field, in export order. `float_texts` holds the text of
    /// the floating-point fields, in the order of `float_fields`.
    pub fn serialize_to_string_vec(&self, float_texts: &[String; 5]) -> (r: Vec<String>)
        ensures
            texts(r@) == self.fields_text(texts(float_texts@)),
            r@.len() == FIELD_COUNT,
    {
        let s = &self.available_satellites;
        let lat = &self.latitude;
        let lon = &self.longitude;
        let cog = &self.course_over_ground;
        let sog = &self.speed_over_ground;
        let t = &self.time_of_sample;
        let r = vec![
            u64_text(s.gp as u64),
            u64_text(s.gl as u64),
            u64_text(s.ga as u64),
            u64_text(s.gb as u64),
            u64_text(s.gi as u64),
            u64_text(s.gq as u64),
            bool_to_text(lat.is_available),
            i32_text(lat.degrees),
            float_texts[0].clone(),
            lat.indicator.to_string(),
            bool_to_text(lon.is_available),
            i32_text(lon.degrees),
            float_texts[1].clone(),
            lon.indicator.to_string(),
            bool_to_text(cog.is_available),
            float_texts[2].clone(),
            char_text(cog.unit_of_measurement),
            bool_to_text(sog.is_available),
            float_texts[3].clone(),
            char_text(sog.unit_of_measurement),
            u64_text(t.year as u64),
            u64_text(t.month as u64),
            u64_text(t.day as u64),
            u64_text(t.hour as u64),
            u64_text(t.minute as u64),
            float_texts[4].clone(),
            bool_to_text(t.is_available),
        ];
        assert(texts(r@) =~= self.fields_text(texts(float_texts@)));
        r
    }
}

/// The `k`-th whole frame of the buffer `b`.
pub open spec fn frame(b: Seq<u8>, k: int) -> Seq<u8> {
    b.subrange(k * FRAME_LEN, k * FRAME_LEN + FRAME_LEN)
}

/// What decoding the first `n` frames of `b` gives: the records in frame
/// order, or the error of the first frame that fails.
pub open spec fn frames_result(b: Seq<u8>, n: nat) -> Result<Seq<M10GnssDataPoint>, DecodeError>
    decreases n,
{
    if n == 0 {
        Ok(Seq::empty())
    } else {
        match frames_result(b, (n - 1) as nat) {
            Err(e) => Err(e),
            Ok(points) => match data_point_result(frame(b, n - 1)) {
                Err(e) => Err(e),
                Ok(p) => Ok(points.push(p)),
            },
        }
    }
}

/// Once a frame fails, decoding more frames keeps the first error.
proof fn lemma_frames_error_persists(b: Seq<u8>, m: nat, n: nat)
    requires
        m <= n,
        frames_result(b, m) is Err,
    ensures
        frames_result(b, n) == frames_result(b, m),
    decreases n - m,
{
    if m < n {
        lemma_frames_error_persists(b, m, (n - 1) as nat);
    }
}

/// Number of whole frames in a buffer of `len` bytes.
pub open spec fn frame_count(len: nat) -> nat {
    len / (FRAME_LEN as nat)
}

/// What decoding a whole buffer gives; a trailing partial frame is left out.
pub open spec fn decode_all(b: Seq<u8>) -> Result<Seq<M10GnssDataPoint>, DecodeError> {
    frames_result(b, frame_count(b.len()))
}

/// The column names, in export order.
pub open spec fn header_texts() -> Seq<Seq<char>> {
    seq![
        "gp"@,
        "gl"@,
        "ga"@,
        "gb"@,
        "gi"@,
        "gq"@,
        "Latitude: Available"@,
        "Latitude: Degrees"@,
        "Latitude: Minutes"@,
        "Latitude: Indicator"@,
        "Longitude: Available"@,
        "Longitude: Degrees"@,
        "Longitude: Minutes"@,
        "Longitude: Indicator"@,
        "Course Over Ground: Available"@,
        "Course Over Ground: Value"@,
        "Course Over Ground: Unit Of Measurement"@,
        "Speed Over Ground: Available"@,
        "Speed Over Ground: Value"@,
        "Speed Over Ground: Unit Of Measurement"@,
        "Timestamp: Year"@,
        "Timestamp: Month"@,
        "Timestamp: Day"@,
        "Timestamp: Hour"@,
        "Timestamp: Minute"@,
        "Timestamp: Second"@,
        "Timestamp: Available"@,
    ]
}

/// A frame whose two hemisphere bytes name a hemisphere and whose two unit
/// bytes are ASCII.
pub open spec fn frame_well_formed(b: Seq<u8>) -> bool {
    &&& indicator_of(b[LATITUDE_START + INDICATOR_OFFSET]) is Some
    &&& indicator_of(b[LONGITUDE_START + INDICATOR_OFFSET]) is Some
    &&& b[COURSE_START + UNIT_OFFSET] < 0x80
    &&& b[SPEED_START + UNIT_OFFSET] < 0x80
}

/// A frame of the right width decodes exactly when it is well formed, and
/// then projects to one text per field, in export order.
pub proof fn lemma_well_formed_frame_decodes(b: Seq<u8>, floats: Seq<Seq<char>>)
    requires
        b.len() == FRAME_LEN,
        floats.len() == 5,
    ensures
        data_point_result(b) is Ok <==> frame_well_formed(b),
        data_point_result(b) is Ok ==> data_point_result(b)->Ok_0.fields_text(floats).len()
            == FIELD_COUNT,
{
    assert(block(b, LATITUDE_START, LAT_LONG_LEN)[INDICATOR_OFFSET as int] == b[LATITUDE_START
        + INDICATOR_OFFSET]);
    assert(block(b, LONGITUDE_START, LAT_LONG_LEN)[INDICATOR_OFFSET as int] == b[LONGITUDE_START
        + INDICATOR_OFFSET]);
    assert(block(b, COURSE_START, NUMERIC_LEN)[UNIT_OFFSET as int] == b[COURSE_START
        + UNIT_OFFSET]);
    assert(block(b, SPEED_START, NUMERIC_LEN)[UNIT_OFFSET as int] == b[SPEED_START + UNIT_OFFSET]);
}

/// Decoding the first `n` frames succeeds exactly when each of them decodes,
/// and then gives one record per frame, record `k` from frame `k`.
proof fn lemma_frames_result_shape(b: Seq<u8>, n: nat)
    ensures
        frames_result(b, n) is Ok <==> forall|k: int|
            0 <= k < n ==> #[trigger] data_point_result(frame(b, k)) is Ok,
        frames_result(b, n) is Ok ==> {
            let points = frames_result(b, n)->Ok_0;
            &&& points.len() == n
            &&& forall|k: int|
                0 <= k < n ==> #[trigger] data_point_result(frame(b, k)) == Ok::<_, DecodeError>(
                    points[k],
                )
        },
    decreases n,
{
    if n > 0 {
        lemma_frames_result_shape(b, (n - 1) as nat);
        if frames_result(b, n) is Ok {
            let points = frames_result(b, n)->Ok_0;
            let prev = frames_result(b, (n - 1) as nat)->Ok_0;
            assert forall|k: int| 0 <= k < n implies #[trigger] data_point_result(frame(b, k))
                == Ok::<_, DecodeError>(points[k]) by {
                if k < n - 1 {
                    assert(points[k] == prev[k]);
                }
            }
        } else {
            if frames_result(b, (n - 1) as nat) is Err {
                let k = choose|k: int| 0 <= k < n - 1 && !(#[trigger] data_point_result(
                    frame(b, k),
                ) is Ok);
                assert(0 <= k < n && !(data_point_result(frame(b, k)) is Ok));
            } else {
                assert(!(data_point_result(frame(b, n - 1)) is Ok));
            }
        }
    }
}

/// A buffer decodes exactly when each of its whole frames does, and then into
/// one record per whole frame, in the order of the frames.
pub proof fn lemma_decode_all_frames(b: Seq<u8>)
    ensures
        decode_all(b) is Ok <==> forall|k: int|
            0 <= k < frame_count(b.len()) ==> #[trigger] data_point_result(frame(b, k)) is Ok,
        decode_all(b) is Ok ==> {
            let points = decode_all(b)->Ok_0;
            &&& points.len() == frame_count(b.len())
            &&& forall|k: int|
                0 <= k < points.len() ==> #[trigger] data_point_result(frame(b, k)) == Ok::<
                    _,
                    DecodeError,
                >(points[k])
        },
{
    lemma_frames_result_shape(b, frame_count(b.len()));
}

/// Decoding the first `n` frames reads only the first `n * FRAME_LEN` bytes.
proof fn lemma_frames_result_prefix(b: Seq<u8>, tail: Seq<u8>, n: nat)
    requires
        n * FRAME_LEN <= b.len(),
    ensures
        frames_result(b + tail, n) == frames_result(b, n),
    decreases n,
{
    if n > 0 {
        assert((n - 1) * FRAME_LEN <= b.len()) by (nonlinear_arith)
            requires
                n * 120 <= b.len(),
                n > 0,
        ;
        lemma_frames_result_prefix(b, tail, (n - 1) as nat);
        assert(frame(b + tail, n - 1) =~= frame(b, n - 1));
    }
}

/// Bytes after the last whole frame are ignored: appending fewer than
/// `FRAME_LEN` bytes to a buffer of whole frames leaves its decoding unchanged.
pub proof fn lemma_trailing_partial_frame_ignored(b: Seq<u8>, tail: Seq<u8>)
    requires
        b.len() % (FRAME_LEN as nat) == 0,
        tail.len() < FRAME_LEN,
    ensures
        decode_all(b + tail) == decode_all(b),
{
    let n = frame_count(b.len());
    assert(frame_count((b + tail).len()) == n && n * FRAME_LEN <= b.len()) by (nonlinear_arith)
        requires
            b.len() % 120 == 0,
            tail.len() < 120,
            (b + tail).len() == b.len() + tail.len(),
            n == b.len() / 120,
            frame_count((b + tail).len()) == (b + tail).len() / 120,
    ;
    lemma_frames_result_prefix(b, tail, n);
}

/// Frames that follow `n` whole frames decode as they would on their own.
proof fn lemma_frames_result_after(a: Seq<u8>, c: Seq<u8>, k: nat)
    requires
        a.len() % (FRAME_LEN as nat) == 0,
        k * FRAME_LEN <= c.len(),
    ensures
        frames_result(a + c, frame_count(a.len()) + k) == (match frames_result(a, frame_count(a.len())) {
            Err(e) => Err(e),
            Ok(sa) => match frames_result(c, k) {
                Err(e) => Err(e),
                Ok(sc) => Ok(sa + sc),
            },
        }),
    decreases k,
{
    let n = frame_count(a.len());
    if k == 0 {
        assert(n * FRAME_LEN <= a.len()) by (nonlinear_arith)
            requires
                a.len() % 120 == 0,
                n == a.len() / 120,
        ;
        lemma_frames_result_prefix(a, c, n);
        if frames_result(a, n) is Ok {
            assert(frames_result(a, n)->Ok_0 + Seq::empty() =~= frames_result(a, n)->Ok_0);
        }
    } else {
        assert((n + k - 1) * FRAME_LEN == a.len() + (k - 1) * FRAME_LEN && (k - 1) * FRAME_LEN
            + FRAME_LEN == k * FRAME_LEN) by (nonlinear_arith)
            requires
                a.len() % 120 == 0,
                n == a.len() / 120,
                k >= 1,
        ;
        lemma_frames_result_after(a, c, (k - 1) as nat);
        assert(frame(a + c, n + k - 1) =~= frame(c, k - 1));
        if frames_result(a, n) is Ok && frames_result(c, (k - 1) as nat) is Ok {
            let sa = frames_result(a, n)->Ok_0;
            let sc = frames_result(c, (k - 1) as nat)->Ok_0;
            if data_point_result(frame(c, k - 1)) is Ok {
                let p = data_point_result(frame(c, k - 1))->Ok_0;
                assert((sa + sc).push(p) =~= sa + sc.push(p));
            }
        }
    }
}

/// Decoding two buffers of whole frames one after the other gives the records
/// of the first followed by those of the second, or the first error met.
pub proof fn lemma_concatenated_buffers(a: Seq<u8>, c: Seq<u8>)
    requires
        a.len() % (FRAME_LEN as nat) == 0,
    ensures
        decode_all(a + c) == (match decode_all(a) {
            Err(e) => Err(e),
            Ok(sa) => match decode_all(c) {
                Err(e) => Err(e),
                Ok(sc) => Ok(sa + sc),
            },
        }),
{
    let n = frame_count(a.len());
    let m = frame_count(c.len());
    assert(frame_count((a + c).len()) == n + m) by (nonlinear_arith)
        requires
            a.len() % 120 == 0,
            n == a.len() / 120,
            m == c.len() / 120,
            (a + c).len() == a.len() + c.len(),
            frame_count((a + c).len()) == (a + c).len() / 120,
    ;
    assert(m * FRAME_LEN <= c.len()) by (nonlinear_arith)
        requires
            m == c.len() / 120,
    ;
    lemma_frames_result_after(a, c, m);
}

/// A buffer shorter than one frame decodes to no record at all.
pub proof fn lemma_short_buffer_has_no_frames(b: Seq<u8>)
    requires
        b.len() < FRAME_LEN,
    ensures
        decode_all(b) == Ok::<Seq<M10GnssDataPoint>, DecodeError>(Seq::empty()),
{
}

/// The records of a capture, in the order of its frames.
pub struct M10GnssDataSet {
    data_points: Vec<M10GnssDataPoint>,
}

impl View for M10GnssDataSet {
    type V = Seq<M10GnssDataPoint>;

    closed spec fn view(&self) -> Seq<M10GnssDataPoint> {
        self.data_points@
    }
}

impl M10GnssDataSet {
    /// Decodes every whole frame of a capture, in order. Bytes after the last
    /// whole frame are ignored; the first frame that fails fails the whole.
    pub fn from_bin_dump(bin_content: &[u8]) -> (r: Result<Self, DecodeError>)
        ensures
            match r {
                Ok(set) => decode_all(bin_content@) == Ok::<_, DecodeError>(set@),
                Err(e) => decode_all(bin_content@) == Err::<Seq<M10GnssDataPoint>, _>(e),
            },
    {
        let len = bin_content.len();
        let n = len / FRAME_LEN;
        let mut data_points: Vec<M10GnssDataPoint> = Vec::new();
        let mut k: usize = 0;
        let mut start: usize = 0;
        while k < n
            invariant
                n == frame_count(bin_content@.len()),
                len == bin_content@.len(),
                k <= n,
                start == k * FRAME_LEN,
                frames_result(bin_content@, k as nat) == Ok::<_, DecodeError>(data_points@),
            decreases n - k,
        {
            assert(start + FRAME_LEN <= len) by (nonlinear_arith)
                requires
                    start == k * 120,
                    k < n,
                    n == len / 120,
            ;
            let frame_bytes = &bin_content[start..start + FRAME_LEN];
            match M10GnssDataPoint::from_bytes(frame_bytes) {
                Ok(p) => data_points.push(p),
                Err(e) => {
                    proof {
                        lemma_frames_error_persists(bin_content@, (k + 1) as nat, n as nat);
                    }
                    return Err(e);
                },
            }
            k = k + 1;
            start = start + FRAME_LEN;
        }
        Ok(M10GnssDataSet { data_points })
    }

    /// The records, in frame order.
    pub fn data_points(&self) -> (r: &Vec<M10GnssDataPoint>)
        ensures
            r@ == self@,
    {
        &self.data_points
    }

    /// The column names of the export, one per field of a record.
    pub fn headers() -> (r: Vec<String>)
        ensures
            texts(r@) == header_texts(),
            r@.len() == FIELD_COUNT,
    {
        let r = vec![
            String::from_str("gp"),
            String::from_str("gl"),
            String::from_str("ga"),
            String::from_str("gb"),
            String::from_str("gi"),
            String::from_str("gq"),
            String::from_str("Latitude: Available"),
            String::from_str("Latitude: Degrees"),
            String::from_str("Latitude: Minutes"),
            String::from_str("Latitude: Indicator"),
            String::from_str("Longitude: Available"),
            String::from_str("Longitude: Degrees"),
            String::from_str("Longitude: Minutes"),
            String::from_str("Longitude: Indicator"),
            String::from_str("Course Over Ground: Available"),
            String::from_str("Course Over Ground: Value"),
            String::from_str("Course Over Ground: Unit Of Measurement"),
            String::from_str("Speed Over Ground: Available"),
            String::from_str("Speed Over Ground: Value"),
            String::from_str("Speed Over Ground: Unit Of Measurement"),
            String::from_str("Timestamp: Year"),
            String::from_str("Timestamp: Month"),
            String::from_str("Timestamp: Day"),
            String::from_str("Timestamp: Hour"),
            String::from_str("Timestamp: Minute"),
            String::from_str("Timestamp: Second"),
            String::from_str("Timestamp: Available"),
        ];
        assert(texts(r@) =~= header_texts());
        r
    }
}

} // verus!
