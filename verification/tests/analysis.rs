use tunelock::analysis::{ext_for_mime, rotate, rotate_72, CoverMime};

#[test]
fn rotation_moves_the_tonic() {
    let p: [u32; 12] = [0, 1, 2, 3, 4, 5, 6, 7, 8, 9, 10, 11];
    assert_eq!(rotate(&p, 0), p);
    assert_eq!(rotate(&p, 12), p);
    assert_eq!(rotate(&p, 2), [10, 11, 0, 1, 2, 3, 4, 5, 6, 7, 8, 9]);
    assert_eq!(rotate(&rotate(&p, 5), 9), rotate(&p, 2));
    let f: [f64; 12] = [6.35, 2.23, 3.48, 2.33, 4.38, 4.09, 2.52, 5.19, 2.39, 3.66, 2.29, 2.88];
    assert_eq!(rotate(&f, 7)[7], 6.35);
}

#[test]
fn rotation_72_works_octave_by_octave() {
    let mut p = [0u32; 72];
    for (i, v) in p.iter_mut().enumerate() {
        *v = i as u32;
    }
    let r = rotate_72(&p, 1);
    for o in 0..6 {
        assert_eq!(r[o * 12], (o * 12 + 11) as u32);
        for s in 1..12 {
            assert_eq!(r[o * 12 + s], (o * 12 + s - 1) as u32);
        }
    }
}

#[test]
fn cover_extensions() {
    assert_eq!(ext_for_mime(Some(&CoverMime::Png)), "png");
    assert_eq!(ext_for_mime(Some(&CoverMime::Jpeg)), "jpg");
    assert_eq!(ext_for_mime(Some(&CoverMime::Tiff)), "tif");
    assert_eq!(ext_for_mime(Some(&CoverMime::Bmp)), "bmp");
    assert_eq!(ext_for_mime(Some(&CoverMime::Gif)), "gif");
    assert_eq!(ext_for_mime(Some(&CoverMime::Unknown("image/webp".to_string()))), "jpg");
    assert_eq!(ext_for_mime(None), "jpg");
}
