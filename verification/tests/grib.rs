use winds::grib::sections::sect1::Identification;
use winds::grib::sections::sect3::{Grid, GridDefinition};
use winds::grib::sections::sect4::{seconds_of_unit, Product, ProductDefinition};
use winds::grib::sections::sect5::{Data, Data0, DataRepresentationDefinition};
use winds::grib::sections::sect6::BitMap;
use winds::grib::sections::sect7::Unpacked;
use winds::grib::sections::{Indicator, Section, SectionHeader};
use winds::grib::{from_reader, GribError, GribReader, Parts};

fn section(number: u8, body: &[u8]) -> Vec<u8> {
    let mut bytes = ((body.len() + 5) as u32).to_be_bytes().to_vec();
    bytes.push(number);
    bytes.extend_from_slice(body);
    bytes
}

fn identification() -> Vec<u8> {
    // centre 7, subcentre 0, tables 2 and 1, significance 1,
    // 2024-01-01T06:00:00, status 0, type 1
    section(1, &[0, 7, 0, 0, 2, 1, 1, 0x07, 0xe8, 1, 1, 6, 0, 0, 0, 1])
}

fn grid_template() -> Vec<u8> {
    let mut t = vec![6u8, 0, 0, 0, 0, 0, 0, 0, 0, 0, 0, 0, 0, 0, 0, 0];
    t.extend_from_slice(&360u32.to_be_bytes()); // n_i
    t.extend_from_slice(&181u32.to_be_bytes()); // n_j
    t.extend_from_slice(&[0; 8]); // basic angle
    t.extend_from_slice(&90_000_000u32.to_be_bytes()); // la1
    t.extend_from_slice(&0u32.to_be_bytes()); // lo1
    t.push(48);
    t.extend_from_slice(&(0x8000_0000u32 | 90_000_000).to_be_bytes()); // la2, sign and magnitude
    t.extend_from_slice(&359_000_000u32.to_be_bytes()); // lo2
    t.extend_from_slice(&1_000_000u32.to_be_bytes()); // d_i
    t.extend_from_slice(&1_000_000u32.to_be_bytes()); // d_j
    t.push(0);
    t
}

fn grid_definition(num_points: u32) -> Vec<u8> {
    let mut body = vec![0u8];
    body.extend_from_slice(&num_points.to_be_bytes());
    body.extend_from_slice(&[0, 0, 0, 0]);
    body.extend_from_slice(&grid_template());
    section(3, &body)
}

fn product_template(unit: u8, value: u32) -> Vec<u8> {
    let mut t = vec![2u8, 2, 2, 0, 81, 0, 0, 0, unit];
    t.extend_from_slice(&value.to_be_bytes());
    t.extend_from_slice(&[103, 0]);
    t.extend_from_slice(&10u32.to_be_bytes());
    t.extend_from_slice(&[255, 0]);
    t.extend_from_slice(&0u32.to_be_bytes());
    t
}

fn product_definition(unit: u8, value: u32) -> Vec<u8> {
    let mut body = vec![0u8, 0, 0, 0];
    body.extend_from_slice(&product_template(unit, value));
    section(4, &body)
}

fn data_representation(num_points: u32, template_number: u16, template: &[u8]) -> Vec<u8> {
    let mut body = num_points.to_be_bytes().to_vec();
    body.extend_from_slice(&template_number.to_be_bytes());
    body.extend_from_slice(template);
    section(5, &body)
}

fn simple_template(reference: f32, num_bits: u8) -> Vec<u8> {
    let mut t = reference.to_bits().to_be_bytes().to_vec();
    t.extend_from_slice(&[0, 0, 0, 0, num_bits, 0]);
    t
}

fn message(sections: &[Vec<u8>]) -> Vec<u8> {
    let length: usize = 16 + sections.iter().map(|s| s.len()).sum::<usize>() + 4;
    let mut bytes = b"GRIB".to_vec();
    bytes.extend_from_slice(&[0, 0, 0, 2]);
    bytes.extend_from_slice(&(length as u64).to_be_bytes());
    for s in sections {
        bytes.extend_from_slice(s);
    }
    bytes.extend_from_slice(b"7777");
    bytes
}

fn simple_message(num_points: u32, reference: f32, num_bits: u8, data: &[u8]) -> Vec<u8> {
    message(&[
        identification(),
        grid_definition(num_points),
        product_definition(1, 6),
        data_representation(num_points, 0, &simple_template(reference, num_bits)),
        section(6, &[255]),
        section(7, data),
    ])
}

#[test]
fn message_without_bits_decodes_to_the_reference_value() {
    let grib = from_reader(&simple_message(4, 17.5, 0, &[])).unwrap();
    assert_eq!(grib.messages.len(), 1);
    let bits = 17.5f32.to_bits();
    assert_eq!(grib.messages[0].decode(), Ok(Unpacked::Plain(vec![bits, bits, bits, bits])));
}

#[test]
fn message_without_bits_and_points_decodes_to_nothing() {
    let grib = from_reader(&simple_message(0, 17.5, 0, &[1, 2, 3])).unwrap();
    assert_eq!(grib.messages[0].decode(), Ok(Unpacked::Plain(vec![])));
}

#[test]
fn message_without_bits_ignores_the_payload() {
    let grib = from_reader(&simple_message(2, -3.25, 0, &[9, 9, 9, 9, 9])).unwrap();
    let bits = (-3.25f32).to_bits();
    assert_eq!(grib.messages[0].decode(), Ok(Unpacked::Plain(vec![bits, bits])));
}

#[test]
fn sections_of_a_message_are_read() {
    let grib = from_reader(&simple_message(4, 17.5, 0, &[])).unwrap();
    let m = &grib.messages[0];
    assert_eq!(m.indicator, Indicator { discipline: 0, total_length: 16 + 21 + 72 + 34 + 21 + 6 + 5 + 4 });
    assert_eq!(
        m.identification,
        Identification {
            centre_id: 7,
            subcentre_id: 0,
            master_table_version: 2,
            local_table_version: 1,
            ref_time_significance: 1,
            ref_time: 1_704_088_800,
            prod_status: 0,
            data_type: 1,
        }
    );
    assert_eq!(m.grid_definition.num_points, 4);
    assert_eq!(m.grid_definition.template_number, 0);
    match &m.grid_definition.grid {
        Grid::Grid0(g) => {
            assert_eq!(g.header.earth_shape, 6);
            assert_eq!(g.n_i, 360);
            assert_eq!(g.n_j, 181);
            assert_eq!(g.la1, 90_000_000);
            assert_eq!(g.lo1, 0);
            assert_eq!(g.resolution_and_component_flags, 48);
            assert_eq!(g.la2, -90_000_000);
            assert_eq!(g.lo2, 359_000_000);
            assert_eq!(g.d_i, 1_000_000);
            assert_eq!(g.d_j, 1_000_000);
            assert_eq!(g.scanning_mode, 0);
        }
        other => panic!("{:?}", other),
    }
    match &m.product_definition.product {
        Product::Product0(p) => {
            assert_eq!(p.parameter_category, 2);
            assert_eq!(p.parameter_number, 2);
            assert_eq!(p.process_type, 2);
            assert_eq!(p.analysis_process, 81);
            assert_eq!(p.forecast_time, 6 * 3_600);
            assert_eq!(p.first_surface.surface_type, 103);
            assert_eq!(p.first_surface.scaled_value, 10);
            assert_eq!(p.second_surface.surface_type, 255);
        }
        other => panic!("{:?}", other),
    }
    assert_eq!(m.product_definition.coordinates, None);
    assert_eq!(
        m.data_representation_definition,
        DataRepresentationDefinition {
            num_points: 4,
            template_number: 0,
            data: Data::Data0(Data0 {
                reference_value: 17.5f32.to_bits(),
                binary_scale_factor: 0,
                decimal_scale_factor: 0,
                num_bits: 0,
                values_type: 0,
            }),
        }
    );
    assert_eq!(m.bitmap, BitMap { bitmap_indicator: 255, bitmap: vec![] });
    assert_eq!(m.data, Vec::<u8>::new());
}

#[test]
fn messages_follow_each_other() {
    let mut bytes = simple_message(1, 1.0, 0, &[]);
    bytes.extend_from_slice(&simple_message(2, 2.0, 8, &[5, 6]));
    bytes.extend_from_slice(&simple_message(3, 3.0, 0, &[]));
    let grib = from_reader(&bytes).unwrap();
    assert_eq!(grib.messages.len(), 3);
    assert_eq!(grib.messages[1].data, vec![5, 6]);
    assert_eq!(grib.messages[2].grid_definition.num_points, 3);
}

#[test]
fn stream_ends_where_fewer_octets_than_an_indicator_are_left() {
    assert_eq!(from_reader(&[]).unwrap().messages.len(), 0);
    assert_eq!(from_reader(b"GRIB").unwrap().messages.len(), 0);
    assert_eq!(from_reader(b"fifteen octets.").unwrap().messages.len(), 0);
    let mut bytes = simple_message(1, 1.0, 0, &[]);
    bytes.extend_from_slice(b"7777");
    assert_eq!(from_reader(&bytes).unwrap().messages.len(), 1);
}

#[test]
fn what_is_no_message_of_edition_two_is_an_error() {
    let mut edition_one = b"GRIB".to_vec();
    edition_one.extend_from_slice(&[0, 0, 0, 1]);
    edition_one.extend_from_slice(&16u64.to_be_bytes());
    assert_eq!(from_reader(&edition_one), Err(GribError::GRIBVersionMismatch(1)));
    assert_eq!(from_reader(b"not a grib file at all"), Err(GribError::NotGRIB()));
    let mut old = simple_message(1, 1.0, 0, &[]);
    old[7] = 1;
    assert_eq!(from_reader(&old), Err(GribError::GRIBVersionMismatch(1)));
    let mut trailing = simple_message(1, 1.0, 0, &[]);
    trailing.extend_from_slice(b"trailing bytes that are no message");
    assert_eq!(from_reader(&trailing), Err(GribError::NotGRIB()));
    let mut second = simple_message(1, 1.0, 0, &[]);
    let mut third = simple_message(1, 1.0, 0, &[]);
    third[7] = 3;
    second.extend_from_slice(&third);
    assert_eq!(from_reader(&second), Err(GribError::GRIBVersionMismatch(3)));
}

#[test]
fn read_sect0_reads_the_indicator() {
    let bytes = simple_message(4, 17.5, 0, &[]);
    let mut reader = GribReader::new(&bytes);
    assert_eq!(
        reader.read_sect0(),
        Ok((SectionHeader { size: 16, number: 0 }, Indicator { discipline: 0, total_length: 179 }))
    );
    assert_eq!(reader.read_header(), Ok(SectionHeader { size: 21, number: 1 }));
}

#[test]
fn read_sect0_tells_what_is_wrong() {
    assert_eq!(GribReader::new(b"GRIB").read_sect0(), Err(GribError::StdError()));
    assert_eq!(GribReader::new(b"GRUB000200000000").read_sect0(), Err(GribError::NotGRIB()));
    let mut bytes = simple_message(4, 17.5, 0, &[]);
    bytes[7] = 1;
    assert_eq!(GribReader::new(&bytes).read_sect0(), Err(GribError::GRIBVersionMismatch(1)));
    bytes[7] = 3;
    assert_eq!(GribReader::new(&bytes).read_sect0(), Err(GribError::GRIBVersionMismatch(3)));
}

#[test]
fn read_header_needs_five_bytes() {
    assert_eq!(GribReader::new(&[0, 0, 0, 9]).read_header(), Err(GribError::StdError()));
    assert_eq!(
        GribReader::new(&[0, 0, 1, 0, 7, 1]).read_header(),
        Ok(SectionHeader { size: 256, number: 7 })
    );
}

#[test]
fn read_exact_reads_or_leaves() {
    let bytes = [1u8, 2, 3, 4, 5];
    let mut reader = GribReader::new(&bytes);
    assert_eq!(reader.read_exact(2), Ok(&bytes[0..2]));
    assert_eq!(reader.read_exact(4), Err(GribError::StdError()));
    assert_eq!(reader.read_exact(3), Ok(&bytes[2..5]));
    assert_eq!(reader.read_exact(0), Ok(&bytes[5..5]));
    assert_eq!(reader.read_exact(1), Err(GribError::StdError()));
}

#[test]
fn read_section_reads_header_and_body() {
    let bytes = section(7, &[1, 2, 3]);
    let mut reader = GribReader::new(&bytes);
    assert_eq!(
        reader.read_section(),
        Ok((SectionHeader { size: 8, number: 7 }, Section::Section7(vec![1, 2, 3])))
    );
    let local = section(2, &[9; 40]);
    assert_eq!(
        GribReader::new(&local).read_section(),
        Ok((SectionHeader { size: 45, number: 2 }, Section::Section2))
    );
}

#[test]
fn end_section_must_be_sevens() {
    assert_eq!(GribReader::new(b"7777").read_sect8_body(4), Ok(Section::Section8));
    assert_eq!(GribReader::new(b"7778").read_sect8_body(4), Err(GribError::EndSectionMismatch()));
    assert_eq!(GribReader::new(b"777").read_sect8_body(4), Err(GribError::StdError()));
    assert_eq!(GribReader::new(b"77777").read_sect8_body(5), Err(GribError::EndSectionMismatch()));
    assert_eq!(GribReader::new(b"7777").read_sect8_body(3), Err(GribError::EndSectionMismatch()));
    assert_eq!(GribReader::new(b"7777").read_sect8_body(0), Err(GribError::EndSectionMismatch()));
    assert_eq!(GribReader::new(b"7777").read_sect8_body(9), Err(GribError::StdError()));
    let mut reader = GribReader::new(b"77777777");
    assert_eq!(reader.read_sect8_body(5), Err(GribError::EndSectionMismatch()));
    assert_eq!(reader.read_exact(3), Ok(&b"777"[..]));
    let mut bytes = simple_message(1, 1.0, 0, &[]);
    let last = bytes.len() - 1;
    bytes[last] = b'8';
    assert_eq!(from_reader(&bytes), Err(GribError::EndSectionMismatch()));
}

#[test]
fn unknown_section_is_refused() {
    let bytes = message(&[identification(), section(9, &[0])]);
    assert_eq!(from_reader(&bytes), Err(GribError::UnknownSection(9)));
    let zero = message(&[section(0, &[0])]);
    assert_eq!(from_reader(&zero), Err(GribError::UnknownSection(0)));
}

#[test]
fn truncated_message_is_an_error() {
    let bytes = simple_message(4, 17.5, 0, &[]);
    for cut in [17, 20, 21, 40, 100, bytes.len() - 1] {
        assert_eq!(from_reader(&bytes[..cut]), Err(GribError::StdError()));
    }
}

#[test]
fn missing_sections_are_reported_in_their_order() {
    let all = [
        identification(),
        grid_definition(0),
        product_definition(1, 0),
        data_representation(0, 0, &simple_template(0.0, 0)),
        section(6, &[255]),
        section(7, &[]),
    ];
    for (missing, number) in [(0usize, 1), (1, 3), (2, 4), (3, 5), (4, 6), (5, 7)] {
        let mut sections = all.to_vec();
        sections.remove(missing);
        assert_eq!(
            from_reader(&message(&sections)),
            Err(GribError::DecodeError(format!("Missing Section {}", number)))
        );
    }
    assert_eq!(
        from_reader(&message(&[])),
        Err(GribError::DecodeError(String::from("Missing Section 1")))
    );
}

#[test]
fn later_section_replaces_an_earlier_one_of_its_number() {
    let bytes = message(&[
        identification(),
        grid_definition(4),
        product_definition(1, 6),
        data_representation(4, 0, &simple_template(1.0, 0)),
        section(6, &[255]),
        section(7, &[1]),
        section(2, &[1, 2, 3]),
        section(7, &[2, 3]),
    ]);
    assert_eq!(from_reader(&bytes).unwrap().messages[0].data, vec![2, 3]);
}

#[test]
fn lengths_that_cannot_be_are_parse_errors() {
    let mut short = b"GRIB".to_vec();
    short.extend_from_slice(&[0, 0, 0, 2]);
    short.extend_from_slice(&15u64.to_be_bytes());
    assert_eq!(from_reader(&short), Err(GribError::ParseError(String::from("Message is too short"))));
    let mut tiny = message(&[vec![0, 0, 0, 4, 1]]);
    tiny.extend_from_slice(&[0; 8]);
    assert_eq!(from_reader(&tiny), Err(GribError::ParseError(String::from("Section is too short"))));
    let mut overrun = message(&[section(7, &[1, 2, 3])]);
    overrun[15] = 16 + 6;
    assert_eq!(
        from_reader(&overrun),
        Err(GribError::ParseError(String::from("Section overruns the message")))
    );
}

#[test]
fn short_sections_are_parse_errors() {
    for (number, body, text) in [
        (1u8, vec![0u8; 15], "Section 1 is too short"),
        (3, vec![0; 8], "Section 3 is too short"),
        (3, vec![0, 0, 0, 0, 0, 5, 0, 0, 1, 9, 9], "Section 3 is too short"),
        (4, vec![0; 3], "Section 4 is too short"),
        (4, vec![0, 1, 0, 1, 9, 9, 9], "Section 4 is too short"),
        (5, vec![0; 5], "Section 5 is too short"),
        (6, vec![], "Section 6 is too short"),
    ] {
        assert_eq!(
            from_reader(&message(&[section(number, &body)])),
            Err(GribError::ParseError(String::from(text)))
        );
    }
}

#[test]
fn reference_time_must_exist() {
    let body = [0, 7, 0, 0, 2, 1, 1, 0x07, 0xe7, 2, 29, 6, 0, 0, 0, 1];
    assert_eq!(
        Identification::from_body(&body),
        Err(GribError::ParseError(String::from("Reference time does not exist")))
    );
    let leap = [0, 7, 0, 0, 2, 1, 1, 0x07, 0xe8, 2, 29, 23, 59, 59, 0, 1];
    assert_eq!(Identification::from_body(&leap).unwrap().ref_time, 1_709_251_199);
    let minute = [0, 7, 0, 0, 2, 1, 1, 0x07, 0xe8, 2, 29, 23, 60, 0, 0, 1];
    assert!(Identification::from_body(&minute).is_err());
}

#[test]
fn grid_templates() {
    assert_eq!(
        Grid::from_template(0, vec![0; 57]),
        Err(GribError::ParseError(String::from("Grid template 0 is too short")))
    );
    assert!(matches!(Grid::from_template(0, vec![0; 58]), Ok(Grid::Grid0(_))));
    assert_eq!(Grid::from_template(40, vec![1, 2, 3]), Ok(Grid::Unknown(vec![1, 2, 3])));
    let mut body = vec![1u8, 0, 0, 0, 9, 2, 3, 0, 30, 7, 7, 7, 8, 8];
    let definition = GridDefinition::from_body(&body).unwrap();
    assert_eq!(
        definition,
        GridDefinition {
            source: 1,
            num_points: 9,
            optional_num_list_size: 2,
            optional_num_list_interpretation: 3,
            template_number: 30,
            grid: Grid::Unknown(vec![7, 7, 7]),
        }
    );
    body[5] = 6;
    assert!(GridDefinition::from_body(&body).is_err());
}

#[test]
fn forecast_time_units() {
    for (unit, seconds) in [
        (0u8, 60u64),
        (1, 3_600),
        (2, 86_400),
        (3, 30 * 86_400),
        (4, 365 * 86_400),
        (5, 10 * 365 * 86_400),
        (6, 30 * 365 * 86_400),
        (7, 100 * 365 * 86_400),
        (10, 3 * 3_600),
        (11, 6 * 3_600),
        (12, 12 * 3_600),
        (13, 1),
    ] {
        assert_eq!(seconds_of_unit(unit), Some(seconds));
        match Product::from_template(0, product_template(unit, 7)) {
            Ok(Product::Product0(p)) => assert_eq!(p.forecast_time, 7 * seconds),
            other => panic!("{:?}", other),
        }
    }
    match Product::from_template(0, product_template(7, u32::MAX)) {
        Ok(Product::Product0(p)) => assert_eq!(p.forecast_time, 3_153_600_000 * 4_294_967_295),
        other => panic!("{:?}", other),
    }
}

#[test]
fn unknown_forecast_time_unit_is_a_parse_error() {
    for unit in [8u8, 9, 14, 255] {
        assert_eq!(seconds_of_unit(unit), None);
        assert_eq!(
            Product::from_template(0, product_template(unit, 1)),
            Err(GribError::ParseError(format!("Forecast Time Unit `{}` does not exist.", unit)))
        );
    }
}

#[test]
fn product_templates() {
    assert_eq!(
        Product::from_template(0, vec![0; 24]),
        Err(GribError::ParseError(String::from("Product template 0 is too short")))
    );
    assert_eq!(Product::from_template(8, vec![4, 5]), Ok(Product::Unknown(vec![4, 5])));
    let body = [0u8, 1, 0, 9, 1, 2, 3, 0xa, 0xb, 0xc, 0xd];
    assert_eq!(
        ProductDefinition::from_body(&body),
        Ok(ProductDefinition {
            num_coordinates: 1,
            template_number: 9,
            product: Product::Unknown(vec![1, 2, 3]),
            coordinates: None,
        })
    );
}

#[test]
fn parts_make_a_message() {
    let mut parts = Parts::new();
    parts.absorb(Section::Section7(vec![1]));
    parts.absorb(Section::Section2);
    parts.absorb(Section::Section8);
    parts.absorb(Section::Section6(BitMap { bitmap_indicator: 0, bitmap: vec![0xf0] }));
    assert_eq!(parts.data, Some(vec![1]));
    assert_eq!(parts.identification, None);
    assert_eq!(
        parts.into_message(Indicator { discipline: 0, total_length: 0 }),
        Err(GribError::DecodeError(String::from("Missing Section 1")))
    );
}

#[test]
fn unknown_data_template_is_not_decoded() {
    let bytes = message(&[
        identification(),
        grid_definition(4),
        product_definition(1, 6),
        data_representation(4, 40, &[1, 2, 3]),
        section(6, &[255]),
        section(7, &[1]),
    ]);
    let grib = from_reader(&bytes).unwrap();
    assert_eq!(grib.messages[0].data_representation_definition.data, Data::Unknown(vec![1, 2, 3]));
    assert_eq!(
        grib.messages[0].decode(),
        Err(GribError::DecodeError(String::from("Not implemented data decoder : 40")))
    );
}

#[test]
fn reader_takes_nothing_where_too_little_is_left() {
    let bytes = [0u8, 0, 0, 9];
    let mut reader = GribReader::new(&bytes);
    assert_eq!(reader.read_header(), Err(GribError::StdError()));
    assert_eq!(reader.read_sect0(), Err(GribError::StdError()));
    assert_eq!(reader.read_sect7_body(5), Err(GribError::StdError()));
    assert_eq!(reader.read_exact(4), Ok(&bytes[..]));
}

#[test]
fn reader_stands_behind_a_section_that_it_could_not_read() {
    let mut bytes = section(6, &[]);
    bytes.extend_from_slice(&[1, 2, 3]);
    let mut reader = GribReader::new(&bytes);
    assert_eq!(
        reader.read_section(),
        Err(GribError::ParseError(String::from("Section 6 is too short")))
    );
    assert_eq!(reader.read_exact(3), Ok(&[1u8, 2, 3][..]));
    let unknown = [0u8, 0, 0, 9, 12, b'7', b'7', b'7', b'7'];
    let mut reader = GribReader::new(&unknown);
    assert_eq!(reader.read_section(), Err(GribError::UnknownSection(12)));
    assert_eq!(reader.read_sect8_body(4), Ok(Section::Section8));
    let cut = [0u8, 0, 0, 9, 7, 1, 2];
    let mut reader = GribReader::new(&cut);
    assert_eq!(reader.read_section(), Err(GribError::StdError()));
    assert_eq!(reader.read_exact(2), Ok(&[1u8, 2][..]));
}

#[test]
fn reference_time_of_a_far_year_is_read() {
    let body = [0, 7, 0, 0, 2, 1, 1, 0xff, 0xff, 12, 31, 23, 59, 59, 0, 1];
    assert_eq!(Identification::from_body(&body).unwrap().ref_time, 2_005_949_145_599);
    let epoch = [0, 7, 0, 0, 2, 1, 1, 0x07, 0xb2, 1, 1, 0, 0, 1, 0, 1];
    assert_eq!(Identification::from_body(&epoch).unwrap().ref_time, 1);
    let year_zero = [0, 7, 0, 0, 2, 1, 1, 0, 0, 1, 1, 0, 0, 0, 0, 1];
    assert_eq!(Identification::from_body(&year_zero).unwrap().ref_time, -62_167_219_200);
}
