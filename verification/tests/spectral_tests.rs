use chroma::errors::RowDecodeError;
use chroma::roles::Palette;
use chroma::color::ColorValue;
use chroma::spectral::decode_rows;
use chroma::spectral::parse_field;
use chroma::spectral::parse_row;
use chroma::spectral::record_from_fields;
use chroma::xyz::chromaticity;
use chroma::xyz::rgb_to_xyz;

#[test]
fn well_formed_row_decodes_exactly() {
    let rec = parse_row(b"500.0,0.1,0.2,0.3").unwrap();
    assert_eq!(rec.wavelength, 500_000_000);
    assert_eq!((rec.xyz.x, rec.xyz.y, rec.xyz.z), (100_000, 200_000, 300_000));
}

#[test]
fn fields_decode_exact_decimals() {
    assert_eq!(parse_field(b"0.000001"), Ok(1));
    assert_eq!(parse_field(b"1"), Ok(1_000_000));
    assert_eq!(parse_field(b"-12.25"), Ok(-12_250_000));
    assert_eq!(parse_field(b"380.5"), Ok(380_500_000));
}

#[test]
fn record_assembles_from_separate_fields() {
    let rec = record_from_fields(b"435.8", b"0.3481", b"0.0298", b"1.7826").unwrap();
    assert_eq!(rec.wavelength, 435_800_000);
    assert_eq!((rec.xyz.x, rec.xyz.y, rec.xyz.z), (348_100, 29_800, 1_782_600));
}

#[test]
fn malformed_rows_are_rejected() {
    assert_eq!(parse_row(b"500.0,0.1,0.2"), Err(RowDecodeError));
    assert_eq!(parse_row(b"500.0,0.1,0.2,0.3,0.4"), Err(RowDecodeError));
    assert_eq!(parse_row(b"a,b,c,d"), Err(RowDecodeError));
    assert_eq!(parse_row(b"1.0000001,0,0,0"), Err(RowDecodeError));
    assert_eq!(parse_row(b"1.,2,3,4"), Err(RowDecodeError));
    assert_eq!(parse_row(b"1e5,2,3,4"), Err(RowDecodeError));
    assert_eq!(parse_row(b".5,2,3,4"), Err(RowDecodeError));
    assert_eq!(parse_row(b""), Err(RowDecodeError));
}

#[test]
fn first_bad_row_aborts_the_iteration() {
    let rows: Vec<Vec<u8>> = vec![
        b"400.0,0.01,0.02,0.03".to_vec(),
        b"broken".to_vec(),
        b"410.0,0.04,0.05,0.06".to_vec(),
    ];
    let (records, err) = decode_rows(&rows);
    assert_eq!(records.len(), 1);
    assert_eq!(records[0].wavelength, 400_000_000);
    assert_eq!(err, Some(RowDecodeError));
}

#[test]
fn clean_rows_all_decode_in_order() {
    let rows: Vec<Vec<u8>> = vec![
        b"400.0,0.01,0.02,0.03".to_vec(),
        b"410.0,0.04,0.05,0.06".to_vec(),
    ];
    let (records, err) = decode_rows(&rows);
    assert_eq!(err, None);
    assert_eq!(records.len(), 2);
    assert_eq!(records[0].wavelength, 400_000_000);
    assert_eq!(records[1].wavelength, 410_000_000);
}

#[test]
fn pipeline_completes_without_spectral_data() {
    // An unavailable data source yields no rows at all; the rest of
    // the pipeline must still run to completion.
    let rows: Vec<Vec<u8>> = Vec::new();
    let (records, err) = decode_rows(&rows);
    assert_eq!(err, None);
    assert!(records.is_empty());
    let seed = ColorValue::from_text(b"1A1B26").unwrap();
    let p = Palette::seed(&seed, &seed, &seed, &seed);
    let t = rgb_to_xyz(&p.background);
    assert!(chromaticity(&t).is_ok());
}
