//! End-to-end tests over synthetic in-memory siff files.

use corrosiff::dimensions::Dimensions;
use corrosiff::file_types::{Endian, FileType, ValidType};
use corrosiff::frame::Mask;
use corrosiff::open_siff;
use corrosiff::siffreader::RegistrationDict;
use corrosiff::time::ClockBase;
use corrosiff::utils::plan_chunks;
use corrosiff::{time_axis_epoch, time_axis_epoch_both, time_axis_experiment, TiffMode};

fn p16(v: &mut Vec<u8>, x: u16) {
    v.extend_from_slice(&x.to_le_bytes());
}

fn p64(v: &mut Vec<u8>, x: u64) {
    v.extend_from_slice(&x.to_le_bytes());
}

fn photon(y: u16, x: u16, tau: u32) -> u64 {
    ((y as u64) << 48) | ((x as u64) << 32) | (tau as u64)
}

#[derive(Clone)]
enum Payload {
    Raw(Vec<u64>),
    Compressed(Vec<u16>, Vec<u16>),
    Tiff(Vec<u16>),
}

#[derive(Clone)]
struct TestFrame {
    h: u64,
    w: u64,
    payload: Payload,
    timestamps: Option<Vec<u64>>,
    metadata: Option<Vec<u8>>,
    nvfd: Option<Vec<u8>>,
    roi: Option<Vec<u8>>,
}

impl TestFrame {
    fn raw(h: u64, w: u64, photons: Vec<u64>) -> TestFrame {
        TestFrame {
            h,
            w,
            payload: Payload::Raw(photons),
            timestamps: None,
            metadata: None,
            nvfd: None,
            roi: None,
        }
    }

    fn compressed(h: u64, w: u64, counts: Vec<u16>, arrivals: Vec<u16>) -> TestFrame {
        TestFrame {
            h,
            w,
            payload: Payload::Compressed(counts, arrivals),
            timestamps: None,
            metadata: None,
            nvfd: None,
            roi: None,
        }
    }

    fn tiff(h: u64, w: u64, pixels: Vec<u16>) -> TestFrame {
        TestFrame {
            h,
            w,
            payload: Payload::Tiff(pixels),
            timestamps: None,
            metadata: None,
            nvfd: None,
            roi: None,
        }
    }
}

const TAG_WIDTH: u16 = 256;
const TAG_LENGTH: u16 = 257;
const TAG_STRIP_OFFSETS: u16 = 273;
const TAG_STRIP_BYTES: u16 = 279;
const TAG_SIFF: u16 = 907;
const TAG_METADATA: u16 = 908;
const TAG_TIMESTAMPS: u16 = 909;
const TAG_TAU_BINS: u16 = 910;
const TAG_NVFD: u16 = 911;
const TAG_ROI_STRING: u16 = 912;

/// Builds a little-endian big-variant siff in memory: payloads first, then
/// the directory chain.
fn build_siff(frames: &[TestFrame], tau_bins: Option<u64>) -> Vec<u8> {
    let mut data: Vec<u8> = Vec::new();
    // header: "II", version 43, offset size 8, zero, first-IFD pointer
    data.extend_from_slice(b"II");
    p16(&mut data, 43);
    p16(&mut data, 8);
    p16(&mut data, 0);
    let first_ifd_pos = data.len();
    p64(&mut data, 0); // patched later

    struct Placed {
        strip_offset: u64,
        strip_bytes: u64,
        siff_tag: Option<u64>,
        ts: Option<(u64, u64)>,
        md: Option<(u64, u64)>,
        nv: Option<(u64, u64)>,
        ro: Option<(u64, u64)>,
    }
    let mut placed: Vec<Placed> = Vec::new();

    for f in frames {
        let ts = f.timestamps.as_ref().map(|words| {
            let off = data.len() as u64;
            for wd in words {
                p64(&mut data, *wd);
            }
            (off, words.len() as u64)
        });
        let md = f.metadata.as_ref().map(|bytes| {
            let off = data.len() as u64;
            data.extend_from_slice(bytes);
            (off, bytes.len() as u64)
        });
        let nv = f.nvfd.as_ref().map(|bytes| {
            let off = data.len() as u64;
            data.extend_from_slice(bytes);
            (off, bytes.len() as u64)
        });
        let ro = f.roi.as_ref().map(|bytes| {
            let off = data.len() as u64;
            data.extend_from_slice(bytes);
            (off, bytes.len() as u64)
        });
        let (strip_offset, strip_bytes, siff_tag) = match &f.payload {
            Payload::Raw(photons) => {
                let off = data.len() as u64;
                for ph in photons {
                    p64(&mut data, *ph);
                }
                (off, (photons.len() * 8) as u64, Some(0u64))
            }
            Payload::Compressed(counts, arrivals) => {
                for c in counts {
                    p16(&mut data, *c);
                }
                let off = data.len() as u64;
                for a in arrivals {
                    p16(&mut data, *a);
                }
                (off, (arrivals.len() * 2) as u64, Some(1u64))
            }
            Payload::Tiff(pixels) => {
                let off = data.len() as u64;
                for px in pixels {
                    p16(&mut data, *px);
                }
                (off, (pixels.len() * 2) as u64, None)
            }
        };
        placed.push(Placed { strip_offset, strip_bytes, siff_tag, ts, md, nv, ro });
    }

    // the directory chain
    let mut ifd_offsets: Vec<u64> = Vec::new();
    for (i, f) in frames.iter().enumerate() {
        let pl = &placed[i];
        let mut tags: Vec<(u16, u64, u64)> = Vec::new();
        tags.push((TAG_WIDTH, 1, f.w));
        tags.push((TAG_LENGTH, 1, f.h));
        tags.push((TAG_STRIP_OFFSETS, 1, pl.strip_offset));
        tags.push((TAG_STRIP_BYTES, 1, pl.strip_bytes));
        if let Some(t) = pl.siff_tag {
            tags.push((TAG_SIFF, 1, t));
        }
        if let Some((off, count)) = pl.ts {
            tags.push((TAG_TIMESTAMPS, count, off));
        }
        if let Some((off, len)) = pl.md {
            tags.push((TAG_METADATA, len, off));
        }
        if let Some((off, len)) = pl.nv {
            tags.push((TAG_NVFD, len, off));
        }
        if let Some((off, len)) = pl.ro {
            tags.push((TAG_ROI_STRING, len, off));
        }
        if i == 0 {
            if let Some(tb) = tau_bins {
                tags.push((TAG_TAU_BINS, 1, tb));
            }
        }
        ifd_offsets.push(data.len() as u64);
        p64(&mut data, tags.len() as u64);
        for (id, count, value) in &tags {
            p16(&mut data, *id);
            p16(&mut data, 4); // on-disk type word; the reader skips it
            p64(&mut data, *count);
            p64(&mut data, *value);
        }
        p64(&mut data, 0); // next pointer, patched below
    }
    // patch the chain pointers
    for i in 0..ifd_offsets.len() {
        let next = if i + 1 < ifd_offsets.len() { ifd_offsets[i + 1] } else { 0 };
        let ntags_pos = ifd_offsets[i] as usize;
        let ntags = u64::from_le_bytes(data[ntags_pos..ntags_pos + 8].try_into().unwrap());
        let next_pos = ntags_pos + 8 + 20 * (ntags as usize);
        data[next_pos..next_pos + 8].copy_from_slice(&next.to_le_bytes());
    }
    let first = if ifd_offsets.is_empty() { 0 } else { ifd_offsets[0] };
    data[first_ifd_pos..first_ifd_pos + 8].copy_from_slice(&first.to_le_bytes());
    data
}

#[test]
fn test_tiff_mode_from_string_slice() {
    let mode = TiffMode::from_string_slice("OME");
    assert!(mode.is_ok_and(|val| val == TiffMode::OME));

    let mode = TiffMode::from_string_slice("ScanImage");
    assert!(mode.is_ok_and(|val| val == TiffMode::ScanImage));

    let mode = TiffMode::from_string_slice("Invalid");
    assert!(mode.is_err());
}

/// Tests the photon word field extraction with fake photons.
#[test]
fn test_photon_parse() {
    let y: u16 = (((1 as u64) << 16) - 1) as u16;
    let x: u16 = 1;
    let arrival: u32 = 1;
    let ph: u64 = ((y as u64) << 48) | ((x as u64) << 32) | (arrival as u64);
    assert_eq!(corrosiff::photon::photon_to_y(ph), y as u64);
    assert_eq!(corrosiff::photon::photon_to_x(ph), x as u64);
    assert_eq!(corrosiff::photon::photon_to_tau(ph), arrival as u64);
}

#[test]
fn test_dimensions() {
    let d = Dimensions::new(128, 256);
    assert_eq!(d.to_tuple(), (256, 128));
    let d2 = Dimensions::from_tuple((256, 128));
    assert_eq!(d2.xdim, 128);
    assert_eq!(d2.ydim, 256);
}

#[test]
fn test_discern_filetype() {
    let mut little = vec![0x49u8, 0x49u8, 42u8, 0u8];
    little.extend_from_slice(&[0; 8]);
    assert_eq!(
        FileType::discern_filetype(&little),
        FileType::Valid(ValidType::Undetermined(Endian::Little))
    );
    assert_eq!(FileType::get_endian(&little), Some(Endian::Little));
    let big = vec![0x4Du8, 0x4Du8];
    assert_eq!(FileType::get_endian(&big), Some(Endian::Big));
    let junk = vec![1u8, 2u8, 3u8];
    assert_eq!(FileType::discern_filetype(&junk), FileType::Other);
    assert_eq!(FileType::get_endian(&junk), None);
}

#[test]
fn test_open_bad_magic() {
    let data = vec![0x4Du8, 0x4Du8, 0, 42, 0, 0, 0, 0, 0, 0, 0, 0, 0, 0, 0, 0];
    assert!(open_siff(data).is_err());
    assert!(open_siff(vec![1, 2, 3]).is_err());
}

/// Opens a 50-frame file and requests frames 0..39: the output is 40
/// frames of the shared shape.
#[test]
fn fifty_frame_request_shape() {
    let mut frames: Vec<TestFrame> = Vec::new();
    for i in 0..50u64 {
        frames.push(TestFrame::raw(4, 5, vec![photon(0, 0, i as u32)]));
    }
    let data = build_siff(&frames, Some(100));
    let reader = open_siff(data).unwrap();
    assert_eq!(reader.num_frames(), 50);
    assert!(reader.is_bigtiff());
    let dims = reader.image_dims().unwrap();
    assert_eq!(dims.to_tuple(), (4, 5));

    let request: Vec<u64> = (0..40).collect();
    let out = reader.get_frames_intensity(&request, None).unwrap();
    assert_eq!(out.len(), 40);
    for f in &out {
        assert_eq!(f.height, 4);
        assert_eq!(f.width, 5);
        assert_eq!(f.total(), 1);
    }
}

/// A compressed frame's intensity image is its intensity slab, and a raw
/// frame's image counts its photons; the frame totals match the payloads.
#[test]
fn test_extract_intensity() {
    // compressed frame: 2x2 pixels summing to 65426 photons
    let counts = vec![30000u16, 30000u16, 5426u16, 0u16];
    let arrivals: Vec<u16> = Vec::new(); // intensity alone never reads them
    // raw frame: 397 photons on one pixel grid
    let mut photons: Vec<u64> = Vec::new();
    for i in 0..397u32 {
        photons.push(photon((i % 2) as u16, (i % 2) as u16, i));
    }
    let frames = vec![
        TestFrame::compressed(2, 2, counts.clone(), arrivals),
        TestFrame::raw(2, 2, photons),
    ];
    let data = build_siff(&frames, Some(1000));
    let reader = open_siff(data).unwrap();
    let out = reader.get_frames_intensity(&vec![0, 1], None).unwrap();
    assert_eq!(out[0].total(), 65426);
    assert_eq!(out[1].total(), 397);
    assert_eq!(out[0].at(0, 0), 30000);
    assert_eq!(out[0].at(1, 0), 5426);
    assert_eq!(out[0].at(1, 1), 0);
}

/// Requesting a frame with the zero shift registered gives the identical
/// image to requesting it unregistered.
#[test]
fn registration_zero_shift_identity() {
    let mut frames: Vec<TestFrame> = Vec::new();
    for i in 0..36u64 {
        frames.push(TestFrame::raw(
            3,
            3,
            vec![photon(0, 1, 7), photon(2, 2, 9), photon(1, (i % 3) as u16, 4)],
        ));
    }
    let data = build_siff(&frames, Some(100));
    let reader = open_siff(data).unwrap();

    let mut reg = RegistrationDict::new();
    reg.insert(35, (0, 0));
    let with_reg = reader.get_frames_intensity(&vec![35], Some(&reg)).unwrap();
    let without = reader.get_frames_intensity(&vec![35], None).unwrap();
    for y in 0..3 {
        for x in 0..3 {
            assert_eq!(with_reg[0].at(y, x), without[0].at(y, x));
        }
    }
}

/// A registration table that misses a requested frame is an error and no
/// output is produced.
#[test]
fn registration_missing_key() {
    let mut frames: Vec<TestFrame> = Vec::new();
    for _ in 0..36u64 {
        frames.push(TestFrame::raw(3, 3, vec![photon(1, 1, 5)]));
    }
    let data = build_siff(&frames, Some(100));
    let reader = open_siff(data).unwrap();

    let mut reg = RegistrationDict::new();
    reg.insert(32, (0, 0));
    let r = reader.get_frames_intensity(&vec![35], Some(&reg));
    assert!(r.is_err());
    // but an empty table means "no registration"
    let empty = RegistrationDict::new();
    let r2 = reader.get_frames_intensity(&vec![35], Some(&empty));
    assert!(r2.is_ok());
}

/// System-epoch timestamps update at about one hertz: consecutive frames
/// share a value, distant frames do not.
#[test]
fn system_timestamps_coarse() {
    let mut frames: Vec<TestFrame> = Vec::new();
    for i in 0..206u64 {
        let mut f = TestFrame::raw(1, 1, vec![]);
        // experiment ticks, laser ns, system ns (system advances once a second)
        f.timestamps = Some(vec![i * 10, 1_000_000 + i * 33, 5_000_000_000 + (i / 100) * 1_000_000_000]);
        frames.push(f);
    }
    let data = build_siff(&frames, Some(100));
    let reader = open_siff(data).unwrap();

    let t = reader.get_epoch_timestamps_system(&vec![15, 16, 205]).unwrap();
    assert_eq!(t.len(), 3);
    assert_eq!(t[0], t[1]);
    assert_ne!(t[0], t[2]);

    let laser = reader.get_epoch_timestamps_laser(&vec![15, 35]).unwrap();
    assert_eq!(laser.len(), 2);
    assert_ne!(laser[0], laser[1]);

    let exp = reader.get_experiment_timestamps(&vec![15, 35]).unwrap();
    assert_eq!(exp, vec![150, 350]);

    let both = reader.get_epoch_timestamps_both(&vec![15, 16, 205]).unwrap();
    assert_eq!(both.len(), 3);
    assert_ne!(both[0].0, both[1].0);
    assert_eq!(both[0].1, both[1].1);
    assert_ne!(both[0].1, both[2].1);

    let axis = time_axis_epoch(&reader, ClockBase::EpochSystem).unwrap();
    assert_eq!(axis.len(), 206);
    assert!(time_axis_epoch(&reader, ClockBase::Experiment).is_err());
    assert_eq!(time_axis_experiment(&reader).unwrap()[10], 100);
    assert_eq!(time_axis_epoch_both(&reader).unwrap().len(), 206);
}

/// The histogram total equals the intensity total, for a raw and for a
/// compressed frame whose arrivals are all in range.
#[test]
fn read_histogram_totals() {
    let photons = vec![
        photon(0, 0, 3),
        photon(0, 1, 7),
        photon(1, 0, 3),
        photon(1, 1, 12),
        photon(0, 0, 14),
    ];
    let counts = vec![2u16, 0u16, 1u16, 3u16];
    let arrivals = vec![5u16, 9u16, 11u16, 2u16, 2u16, 13u16];
    let frames = vec![
        TestFrame::raw(2, 2, photons),
        TestFrame::compressed(2, 2, counts, arrivals),
    ];
    let data = build_siff(&frames, Some(15));
    let reader = open_siff(data).unwrap();

    let hist = reader.get_histogram(&vec![0, 1]).unwrap();
    let images = reader.get_frames_intensity(&vec![0, 1], None).unwrap();
    for k in 0..2 {
        assert_eq!(hist[k].len(), 15);
        let hist_total: u64 = hist[k].iter().sum();
        assert_eq!(hist_total, images[k].total());
    }
    // exact bins of the raw frame
    assert_eq!(hist[0][3], 2);
    assert_eq!(hist[0][7], 1);
    assert_eq!(hist[0][12], 1);
    assert_eq!(hist[0][14], 1);
    assert_eq!(hist[0][0], 0);
}

/// An arrival time at or past the histogram length is dropped, not
/// wrapped; the histogram then counts fewer photons than the image.
#[test]
fn histogram_drops_out_of_range() {
    let frames = vec![TestFrame::raw(1, 1, vec![photon(0, 0, 3), photon(0, 0, 99)])];
    let data = build_siff(&frames, Some(10));
    let reader = open_siff(data).unwrap();
    let hist = reader.get_histogram(&vec![0]).unwrap();
    let total: u64 = hist[0].iter().sum();
    assert_eq!(total, 1);
    assert_eq!(hist[0][3], 1);
    let images = reader.get_frames_intensity(&vec![0], None).unwrap();
    assert_eq!(images[0].total(), 2);
}

/// Registration rolls the image cyclically: the registered request equals
/// the cyclic roll of the unregistered one, for a raw and for a
/// compressed frame.
#[test]
fn registration_is_cyclic_roll() {
    let photons = vec![photon(0, 0, 1), photon(1, 2, 2), photon(2, 3, 3), photon(0, 3, 4)];
    let counts = vec![1u16, 2, 3, 4, 5, 6, 7, 8, 9, 10, 11, 12];
    let frames = vec![
        TestFrame::raw(3, 4, photons),
        TestFrame::compressed(3, 4, counts, vec![]),
    ];
    let data = build_siff(&frames, Some(100));
    let reader = open_siff(data).unwrap();

    let (dy, dx): (i32, i32) = (2, -1);
    let mut reg = RegistrationDict::new();
    reg.insert(0, (dy, dx));
    reg.insert(1, (dy, dx));

    let shifted = reader.get_frames_intensity(&vec![0, 1], Some(&reg)).unwrap();
    let plain = reader.get_frames_intensity(&vec![0, 1], None).unwrap();
    for k in 0..2 {
        for y in 0..3i64 {
            for x in 0..4i64 {
                let sy = ((y + dy as i64).rem_euclid(3)) as usize;
                let sx = ((x + dx as i64).rem_euclid(4)) as usize;
                assert_eq!(shifted[k].at(sy, sx), plain[k].at(y as usize, x as usize));
            }
        }
    }
}

/// The masked intensity reduction equals the mask-weighted sum of the
/// decoded image, registered or not, for every format.
#[test]
fn test_sum_roi_methods() {
    let photons = vec![
        photon(0, 0, 1),
        photon(0, 1, 2),
        photon(1, 1, 3),
        photon(1, 1, 4),
        photon(2, 0, 5),
    ];
    let counts = vec![10u16, 20, 30, 40, 50, 60];
    let tiffpix = vec![7u16, 1, 2, 9, 4, 5];
    let frames = vec![
        TestFrame::raw(3, 2, photons),
        TestFrame::compressed(3, 2, counts, vec![]),
        TestFrame::tiff(3, 2, tiffpix),
    ];
    let data = build_siff(&frames, Some(100));
    let reader = open_siff(data).unwrap();

    // wrong-size mask is a dimension error
    let wrong = Mask::filled(2, 2, true);
    assert!(reader.sum_roi_flat(&wrong, &vec![0, 1, 2], None).is_err());

    let mut mask = Mask::filled(3, 2, true);
    mask.set(1, 1, false);
    mask.set(2, 0, false);

    for reg_case in 0..2 {
        let mut reg = RegistrationDict::new();
        let table = if reg_case == 1 {
            reg.insert(0, (1, 1));
            reg.insert(1, (-1, 2));
            reg.insert(2, (0, -1));
            Some(&reg)
        } else {
            None
        };
        let sums = reader.sum_roi_flat(&mask, &vec![0, 1, 2], table).unwrap();
        let images = reader.get_frames_intensity(&vec![0, 1, 2], table).unwrap();
        for k in 0..3 {
            let mut manual: u64 = 0;
            for y in 0..3 {
                for x in 0..2 {
                    if mask.at(y, x) {
                        manual += images[k].at(y, x) as u64;
                    }
                }
            }
            assert_eq!(sums[k], manual, "frame {} reg {}", k, reg_case);
        }
    }
}

/// The volumetric reduction cycles mask planes across the request.
#[test]
fn test_3d_roi_mask() {
    let frames: Vec<TestFrame> = (0..6)
        .map(|i| TestFrame::raw(2, 2, vec![photon(i % 2, 0, 1), photon(1, 1, 2)]))
        .collect();
    let data = build_siff(&frames, Some(100));
    let reader = open_siff(data).unwrap();

    let mut plane0 = Mask::filled(2, 2, true);
    plane0.set(1, 1, false);
    let mut plane1 = Mask::filled(2, 2, false);
    plane1.set(1, 1, true);
    let planes = vec![plane0, plane1];

    let request: Vec<u64> = (0..6).collect();
    let sums = reader.sum_roi_volume(&planes, &request, None).unwrap();
    let images = reader.get_frames_intensity(&request, None).unwrap();
    for k in 0..6usize {
        let plane = &planes[k % 2];
        let mut manual: u64 = 0;
        for y in 0..2 {
            for x in 0..2 {
                if plane.at(y, x) {
                    manual += images[k].at(y, x) as u64;
                }
            }
        }
        assert_eq!(sums[k], manual);
    }
}

/// The lifetime request pairs with the intensity request, and the masked
/// lifetime reduction's intensity sums equal the masked intensity
/// reduction's.
#[test]
fn test_get_frames_flim() {
    let photons = vec![photon(0, 0, 10), photon(0, 0, 20), photon(1, 1, 7)];
    let counts = vec![2u16, 0, 1, 0];
    let arrivals = vec![4u16, 6, 9];
    let frames = vec![
        TestFrame::raw(2, 2, photons),
        TestFrame::compressed(2, 2, counts, arrivals),
    ];
    let data = build_siff(&frames, Some(100));
    let reader = open_siff(data).unwrap();

    let (lifetime, intensity) = reader.get_frames_flim(&vec![0, 1], None).unwrap();
    let just_intensity = reader.get_frames_intensity(&vec![0, 1], None).unwrap();
    for k in 0..2 {
        for y in 0..2 {
            for x in 0..2 {
                assert_eq!(intensity[k].at(y, x), just_intensity[k].at(y, x));
            }
        }
    }
    // arrival-time sums per pixel
    assert_eq!(lifetime[0].at(0, 0), 30);
    assert_eq!(lifetime[0].at(1, 1), 7);
    assert_eq!(lifetime[0].at(0, 1), 0);
    assert_eq!(lifetime[1].at(0, 0), 10);
    assert_eq!(lifetime[1].at(0, 1), 0);
    assert_eq!(lifetime[1].at(1, 0), 9);

    let mask = Mask::filled(2, 2, true);
    let (tau_sums, int_sums) = reader.sum_roi_flim_flat(&mask, &vec![0, 1], None).unwrap();
    let roi_int = reader.sum_roi_flat(&mask, &vec![0, 1], None).unwrap();
    assert_eq!(int_sums, roi_int);
    assert_eq!(tau_sums[0], 37);
    assert_eq!(tau_sums[1], 19);
}

/// A compressed frame whose intensity slab claims more photons than its
/// arrival slab holds fails the lifetime decode (but not the intensity
/// one, which never reads the arrivals).
#[test]
fn malformed_compressed_flim() {
    let counts = vec![5u16, 0, 0, 0];
    let arrivals = vec![1u16, 2]; // two words for five claimed photons
    let frames = vec![TestFrame::compressed(2, 2, counts, arrivals)];
    let data = build_siff(&frames, Some(100));
    let reader = open_siff(data).unwrap();
    assert!(reader.get_frames_flim(&vec![0], None).is_err());
    assert!(reader.get_frames_intensity(&vec![0], None).is_ok());
}

/// Reductions under several disjoint regions at once agree with reducing
/// each region alone.
#[test]
fn disjoint_rois_additive() {
    let photons = vec![photon(0, 0, 1), photon(0, 1, 2), photon(1, 0, 3), photon(1, 1, 4)];
    let frames = vec![TestFrame::raw(2, 2, photons)];
    let data = build_siff(&frames, Some(100));
    let reader = open_siff(data).unwrap();

    let mut r1 = Mask::filled(2, 2, false);
    r1.set(0, 0, true);
    r1.set(0, 1, true);
    let mut r2 = Mask::filled(2, 2, false);
    r2.set(1, 0, true);
    let stack = vec![r1, r2];

    let multi = reader.sum_rois_flat(&stack, &vec![0], None).unwrap();
    let alone0 = reader.sum_roi_flat(&stack[0], &vec![0], None).unwrap();
    let alone1 = reader.sum_roi_flat(&stack[1], &vec![0], None).unwrap();
    assert_eq!(multi[0][0], alone0[0]);
    assert_eq!(multi[0][1], alone1[0]);
    assert_eq!(multi[0][0] + multi[0][1], 3);

    let (mtau, mint) = reader.sum_rois_flim_flat(&stack, &vec![0], None).unwrap();
    assert_eq!(mint[0][0], alone0[0]);
    assert_eq!(mint[0][1], alone1[0]);
    assert_eq!(mtau[0][0], 3);
    assert_eq!(mtau[0][1], 3);
}

/// Out-of-bounds frame indices are a dimension error.
#[test]
fn out_of_bounds_frames() {
    let frames = vec![TestFrame::raw(1, 1, vec![])];
    let data = build_siff(&frames, Some(10));
    let reader = open_siff(data).unwrap();
    assert!(reader.get_frames_intensity(&vec![1], None).is_err());
    assert!(reader.get_histogram(&vec![7]).is_err());
    assert!(reader.get_frames_intensity(&vec![0], None).is_ok());
}

/// Frame metadata returns the appended text block and the frame's
/// timestamps.
#[test]
fn get_frame_metadata() {
    let mut f0 = TestFrame::raw(1, 1, vec![photon(0, 0, 1)]);
    f0.metadata = Some(b"frame zero notes".to_vec());
    f0.timestamps = Some(vec![42, 1000, 2000]);
    let mut f1 = TestFrame::raw(1, 1, vec![]);
    f1.metadata = Some(b"frame one".to_vec());
    let data = build_siff(&[f0, f1], Some(10));
    let reader = open_siff(data).unwrap();

    let md = reader.get_frame_metadata(&vec![0, 1]).unwrap();
    assert_eq!(md.len(), 2);
    assert_eq!(md[0].frame_index, 0);
    assert_eq!(md[0].metadata_bytes, b"frame zero notes".to_vec());
    assert_eq!(md[0].experiment_ticks, Some(42));
    assert_eq!(md[0].laser_epoch_ns, Some(1000));
    assert_eq!(md[0].system_epoch_ns, Some(2000));
    assert_eq!(md[1].frame_index, 1);
    assert_eq!(md[1].metadata_bytes, b"frame one".to_vec());
    assert_eq!(md[1].experiment_ticks, None);
}

/// The chunk plan covers a request in order with bounded chunks.
#[test]
fn chunk_plan_covers() {
    let plan = plan_chunks(12, 5);
    assert_eq!(plan, vec![(0, 5), (5, 10), (10, 12)]);
    assert_eq!(plan_chunks(0, 5), vec![]);
    assert_eq!(plan_chunks(5, 5), vec![(0, 5)]);
}

/// The tau-resolved volume histograms each pixel's arrival times, and its
/// per-pixel totals match the intensity image.
#[test]
fn tau_volume_counts() {
    let photons = vec![photon(0, 0, 3), photon(0, 0, 3), photon(0, 1, 7), photon(1, 1, 12)];
    let counts = vec![2u16, 0, 1, 1];
    let arrivals = vec![4u16, 6, 9, 2];
    let frames = vec![
        TestFrame::raw(2, 2, photons),
        TestFrame::compressed(2, 2, counts, arrivals),
    ];
    let data = build_siff(&frames, Some(16));
    let reader = open_siff(data).unwrap();

    let vols = reader.get_frames_tau_d(&vec![0, 1], None).unwrap();
    // raw frame
    assert_eq!(vols[0].at(0, 0, 3), 2);
    assert_eq!(vols[0].at(0, 1, 7), 1);
    assert_eq!(vols[0].at(1, 1, 12), 1);
    assert_eq!(vols[0].at(1, 0, 0), 0);
    // compressed frame: pixel (0,0) owns arrivals 4 and 6
    assert_eq!(vols[1].at(0, 0, 4), 1);
    assert_eq!(vols[1].at(0, 0, 6), 1);
    assert_eq!(vols[1].at(1, 0, 9), 1);
    assert_eq!(vols[1].at(1, 1, 2), 1);
    assert_eq!(vols[1].at(0, 1, 4), 0);

    // per-pixel totals match the intensity images
    let images = reader.get_frames_intensity(&vec![0, 1], None).unwrap();
    for k in 0..2 {
        for y in 0..2 {
            for x in 0..2 {
                let mut total: u64 = 0;
                for b in 0..16 {
                    total += vols[k].at(y, x, b) as u64;
                }
                assert_eq!(total, images[k].at(y, x) as u64);
            }
        }
    }

    // registration rolls the volume's planes like the image
    let mut reg = RegistrationDict::new();
    reg.insert(0, (1, 1));
    reg.insert(1, (1, 1));
    let rolled = reader.get_frames_tau_d(&vec![0, 1], Some(&reg)).unwrap();
    for k in 0..2 {
        for y in 0..2 {
            for x in 0..2 {
                for b in 0..16 {
                    assert_eq!(rolled[k].at((y + 1) % 2, (x + 1) % 2, b), vols[k].at(y, x, b));
                }
            }
        }
    }
}

/// Volumetric multi-mask reductions cycle each region's planes and agree
/// with the single-region volumetric reduction.
#[test]
fn rois_volume_cycles() {
    let frames: Vec<TestFrame> = (0..4)
        .map(|i| TestFrame::raw(2, 2, vec![photon(i % 2, 1, 3), photon(0, 0, 5)]))
        .collect();
    let data = build_siff(&frames, Some(8));
    let reader = open_siff(data).unwrap();

    let mut pa = Mask::filled(2, 2, true);
    pa.set(0, 0, false);
    let pb = Mask::filled(2, 2, true);
    let roi0 = vec![pa, pb];
    let roi1 = vec![Mask::filled(2, 2, false)];
    let rois = vec![roi0, roi1];

    let request: Vec<u64> = (0..4).collect();
    let multi = reader.sum_rois_volume(&rois, &request, None).unwrap();
    let single = reader.sum_roi_volume(&rois[0], &request, None).unwrap();
    for k in 0..4usize {
        assert_eq!(multi[k][0], single[k]);
        assert_eq!(multi[k][1], 0);
    }

    let (vt, vi) = reader.sum_rois_flim_volume(&rois, &request, None).unwrap();
    for k in 0..4usize {
        assert_eq!(vi[k][0], single[k]);
        assert_eq!(vt[k][1], 0);
    }
}

/// Appended text comes back only for the frames that carry it.
#[test]
fn appended_text_entries() {
    let mut f0 = TestFrame::raw(1, 1, vec![]);
    f0.metadata = Some(b"note".to_vec());
    f0.timestamps = Some(vec![77]);
    let f1 = TestFrame::raw(1, 1, vec![]);
    let mut f2 = TestFrame::raw(1, 1, vec![]);
    f2.metadata = Some(b"other".to_vec());
    let data = build_siff(&[f0, f1, f2], Some(4));
    let reader = open_siff(data).unwrap();

    let entries = reader.get_appended_text(&vec![0, 1, 2]).unwrap();
    assert_eq!(entries.len(), 2);
    assert_eq!(entries[0].0, 0);
    assert_eq!(entries[0].1, b"note".to_vec());
    assert_eq!(entries[0].2, Some(77));
    assert_eq!(entries[1].0, 2);
    assert_eq!(entries[1].1, b"other".to_vec());
    assert_eq!(entries[1].2, None);
}

/// A single frame reads directly from its record, and the reader position
/// is restored around the dispatch.
#[test]
fn siff_frame_from_record() {
    let mut data: Vec<u8> = Vec::new();
    p64(&mut data, photon(0, 1, 9));
    p64(&mut data, photon(0, 0, 2));
    let rec = corrosiff::record::FrameRecord {
        width: 2,
        height: 1,
        strip_offset: 0,
        strip_bytes: 16,
        siff_tag: Some(0),
        metadata: None,
        timestamps: None,
        tau_bins: None,
        nvfd: None,
        roi_string: None,
    };
    let mut pos: usize = 7;
    let frame = corrosiff::siffreader::SiffFrame::from_record(&data, &mut pos, &rec).unwrap();
    assert_eq!(pos, 7);
    assert_eq!(frame.intensity.at(0, 0), 1);
    assert_eq!(frame.intensity.at(0, 1), 1);

    // a strip past the end of the bytes is refused, position still restored
    let bad = corrosiff::record::FrameRecord { strip_bytes: 64, ..rec };
    let r = corrosiff::siffreader::SiffFrame::from_record(&data, &mut pos, &bad);
    assert!(r.is_err());
    assert_eq!(pos, 7);
}

/// The masked histogram counts only the photons inside the mask: its
/// total matches the masked intensity reduction.
#[test]
fn masked_histogram_totals() {
    let photons = vec![photon(0, 0, 3), photon(0, 1, 7), photon(1, 1, 3), photon(1, 0, 9)];
    let counts = vec![1u16, 2, 1, 1];
    let arrivals = vec![5u16, 9, 9, 8, 2];
    let frames = vec![
        TestFrame::raw(2, 2, photons),
        TestFrame::compressed(2, 2, counts, arrivals),
    ];
    let data = build_siff(&frames, Some(12));
    let reader = open_siff(data).unwrap();

    let mut mask = Mask::filled(2, 2, true);
    mask.set(1, 0, false);

    let hist = reader.get_histogram_mask(&vec![0, 1], &mask).unwrap();
    let sums = reader.sum_roi_flat(&mask, &vec![0, 1], None).unwrap();
    for k in 0..2 {
        let total: u64 = hist[k].iter().sum();
        assert_eq!(total, sums[k]);
    }
    // the raw frame's masked bins: tau 3 twice, tau 7 once; tau 9 is masked out
    assert_eq!(hist[0][3], 2);
    assert_eq!(hist[0][7], 1);
    assert_eq!(hist[0][9], 0);
    // the compressed frame's masked bins: the masked-out pixel (1,0) owns
    // the arrival word 8, which is dropped
    assert_eq!(hist[1][5], 1);
    assert_eq!(hist[1][9], 2);
    assert_eq!(hist[1][2], 1);
    assert_eq!(hist[1][8], 0);
    // a wrong-shape mask is a dimension error
    let wrong = Mask::filled(3, 3, true);
    assert!(reader.get_histogram_mask(&vec![0], &wrong).is_err());
}

/// The classic 32-bit container variant parses through the same reader:
/// 12-byte tag entries and 32-bit pointers, widened losslessly.
#[test]
fn classic_variant_parses() {
    let mut data: Vec<u8> = Vec::new();
    data.extend_from_slice(b"II");
    p16(&mut data, 42);
    let first_ifd_pos = data.len();
    data.extend_from_slice(&[0u8; 4]);
    // one raw frame of two photons
    let strip_offset = data.len() as u32;
    p64(&mut data, photon(0, 0, 1));
    p64(&mut data, photon(1, 0, 2));
    let ifd_at = data.len() as u32;
    p16(&mut data, 5); // tag count
    for (id, value) in [
        (TAG_WIDTH, 1u32),
        (TAG_LENGTH, 2u32),
        (TAG_STRIP_OFFSETS, strip_offset),
        (TAG_STRIP_BYTES, 16u32),
        (TAG_SIFF, 0u32),
    ] {
        p16(&mut data, id);
        p16(&mut data, 3); // on-disk type word; the reader skips it
        data.extend_from_slice(&1u32.to_le_bytes());
        data.extend_from_slice(&value.to_le_bytes());
    }
    data.extend_from_slice(&0u32.to_le_bytes()); // end of chain
    data[first_ifd_pos..first_ifd_pos + 4].copy_from_slice(&ifd_at.to_le_bytes());

    let reader = open_siff(data).unwrap();
    assert!(!reader.is_bigtiff());
    assert_eq!(reader.num_frames(), 1);
    let out = reader.get_frames_intensity(&vec![0], None).unwrap();
    assert_eq!(out[0].height, 2);
    assert_eq!(out[0].width, 1);
    assert_eq!(out[0].at(0, 0), 1);
    assert_eq!(out[0].at(1, 0), 1);
}

/// Malformed strips are rejected: a raw strip whose byte count does not
/// divide into photon words, and a big-variant header with the wrong
/// offset size.
#[test]
fn malformed_strips_rejected() {
    // a raw frame whose strip byte count is not a multiple of eight
    let frames = vec![TestFrame::raw(1, 1, vec![photon(0, 0, 1)])];
    let mut data = build_siff(&frames, Some(4));
    // find the strip-byte-counts tag of the single IFD and corrupt it
    let ifd_at = u64::from_le_bytes(data[8..16].try_into().unwrap()) as usize;
    let ntags = u64::from_le_bytes(data[ifd_at..ifd_at + 8].try_into().unwrap()) as usize;
    let mut corrupted = false;
    for t in 0..ntags {
        let entry = ifd_at + 8 + 20 * t;
        let id = u16::from_le_bytes(data[entry..entry + 2].try_into().unwrap());
        if id == TAG_STRIP_BYTES {
            data[entry + 12..entry + 20].copy_from_slice(&7u64.to_le_bytes());
            corrupted = true;
        }
    }
    assert!(corrupted);
    let reader = open_siff(data).unwrap();
    assert!(reader.get_frames_intensity(&vec![0], None).is_err());

    // a big-variant header whose offset size is not eight
    let mut bad = build_siff(&[TestFrame::raw(1, 1, vec![])], None);
    bad[4] = 4;
    assert!(open_siff(bad).is_err());
}

/// The instrument-settings and multi-ROI text blocks read back exactly,
/// and the photon-data test keys on the vendor format tag.
#[test]
fn settings_blocks_and_is_siff() {
    let mut f0 = TestFrame::raw(1, 1, vec![photon(0, 0, 1)]);
    f0.nvfd = Some(b"frame rate = 30; zoom = 2".to_vec());
    f0.roi = Some(b"one rectangle".to_vec());
    let data = build_siff(&[f0, TestFrame::raw(1, 1, vec![])], Some(4));
    let reader = open_siff(data).unwrap();
    assert_eq!(reader.nvfd().unwrap(), b"frame rate = 30; zoom = 2".to_vec());
    assert_eq!(reader.roi_string().unwrap(), b"one rectangle".to_vec());
    assert!(reader.is_siff());

    // a plain dense tiff carries no photon data and no settings blocks
    let plain = build_siff(&[TestFrame::tiff(1, 1, vec![7])], None);
    let plain_reader = open_siff(plain).unwrap();
    assert!(!plain_reader.is_siff());
    assert_eq!(plain_reader.nvfd().unwrap(), Vec::<u8>::new());
    assert_eq!(plain_reader.roi_string().unwrap(), Vec::<u8>::new());
}

/// The photon stream hands back a raw frame's 64-bit words in file order,
/// and refuses frames without raw photon words.
#[test]
fn photon_stream_words() {
    let w0 = photon(0, 1, 9);
    let w1 = photon(1, 0, 2);
    let w2 = photon(1, 1, 5);
    let frames = vec![
        TestFrame::raw(2, 2, vec![w0, w1]),
        TestFrame::raw(2, 2, vec![w2]),
        TestFrame::compressed(2, 2, vec![0, 0, 0, 0], vec![]),
    ];
    let data = build_siff(&frames, Some(16));
    let reader = open_siff(data).unwrap();

    let stream = reader.get_photon_stream(&vec![0, 1, 0], None).unwrap();
    assert_eq!(stream, vec![w0, w1, w2, w0, w1]);
    // a compressed frame holds no photon words
    assert!(reader.get_photon_stream(&vec![2], None).is_err());
    // a non-empty registration table is not supported for word streams
    let mut reg = RegistrationDict::new();
    reg.insert(0, (1, 0));
    assert!(reader.get_photon_stream(&vec![0], Some(&reg)).is_err());
    let empty = RegistrationDict::new();
    assert!(reader.get_photon_stream(&vec![0], Some(&empty)).is_ok());
}
