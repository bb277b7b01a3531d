use winds::grib::sections::sect5::{
    Data, Data0, Data2, Data3, DataRepresentationDefinition, GroupDefinition,
};
use winds::grib::sections::sect7::complex::{
    unpack_groups, ComplexPackingDecoderIterator, GridPointDataComplexPackingDecoder,
};
use winds::grib::sections::sect7::complex_spacial_diff::{
    read_preamble, undifference, GridPointDataComplexPackingSpacialDiffDecoder,
    SpatialDiff2ndOrderDecodeIterator, SpatialPreamble,
};
use winds::grib::sections::sect7::groups::{decode, octets, to_signed, Group, GroupsIterator};
use winds::grib::sections::sect7::simple::GridPointDataSimplePackingDecoder;
use winds::grib::sections::sect7::{Grib2DataDecoder, Unpacked};
use winds::grib::utils::BitwiseIterator;
use winds::grib::GribError;

fn simple(num_points: usize, num_bits: usize) -> DataRepresentationDefinition {
    DataRepresentationDefinition {
        num_points,
        template_number: 0,
        data: Data::Data0(Data0 {
            reference_value: 0x4040_0000,
            binary_scale_factor: 2,
            decimal_scale_factor: -1,
            num_bits,
            values_type: 0,
        }),
    }
}

fn groups(num_groups: usize) -> GroupDefinition {
    GroupDefinition {
        num_groups,
        group_widths_reference: 0,
        group_widths_num_bits: 8,
        group_lengths_reference: 1,
        group_lengths_increment: 1,
        group_lengths_last: 3,
        group_scaled_lengths_num_bits: 8,
    }
}

fn complex(group_definition: GroupDefinition) -> DataRepresentationDefinition {
    DataRepresentationDefinition {
        num_points: 5,
        template_number: 2,
        data: Data::Data2(Data2 {
            reference_value: 0x4040_0000,
            binary_scale_factor: 1,
            decimal_scale_factor: 2,
            num_bits: 8,
            values_type: 0,
            group_method: 1,
            missing_value: 0,
            missing_substitute_primary: 0,
            missing_substitute_secondary: 0,
            group_definition,
        }),
    }
}

fn spatial(order: u8, group_definition: GroupDefinition) -> DataRepresentationDefinition {
    DataRepresentationDefinition {
        num_points: 4,
        template_number: 3,
        data: Data::Data3(Data3 {
            reference_value: 0x4040_0000,
            binary_scale_factor: 1,
            decimal_scale_factor: 2,
            num_bits: 8,
            values_type: 0,
            group_method: 1,
            missing_value: 0,
            missing_substitute_primary: 0,
            missing_substitute_secondary: 0,
            group_definition,
            spacial_difference_order: order,
            spacial_difference_size: 2,
        }),
    }
}

fn scaled(values: Vec<i64>) -> Unpacked {
    Unpacked::Scaled {
        reference_value: 0x4040_0000,
        binary_scale_factor: 1,
        decimal_scale_factor: 2,
        values,
    }
}

#[test]
fn simple_packing_without_bits_repeats_the_reference_value() {
    let decoder = GridPointDataSimplePackingDecoder {};
    for k in [0usize, 1, 4, 1000] {
        assert_eq!(
            decoder.decode(&simple(k, 0), &[1, 2, 3]),
            Ok(Unpacked::Plain(vec![0x4040_0000; k]))
        );
    }
}

#[test]
fn simple_packing_reads_the_packed_integers() {
    let decoder = GridPointDataSimplePackingDecoder {};
    assert_eq!(
        decoder.decode(&simple(4, 8), &[1, 2, 3, 255]),
        Ok(Unpacked::Scaled {
            reference_value: 0x4040_0000,
            binary_scale_factor: 2,
            decimal_scale_factor: -1,
            values: vec![1, 2, 3, 255],
        })
    );
    assert_eq!(
        decoder.decode(&simple(4, 12), &[0x12, 0x34, 0x56, 0x78, 0x9a, 0xbc]),
        Ok(Unpacked::Scaled {
            reference_value: 0x4040_0000,
            binary_scale_factor: 2,
            decimal_scale_factor: -1,
            values: vec![0x123, 0x456, 0x789, 0xabc],
        })
    );
}

#[test]
fn simple_packing_keeps_the_low_32_bits() {
    let decoder = GridPointDataSimplePackingDecoder {};
    assert_eq!(
        decoder.decode(&simple(1, 40), &[0xaa, 0x01, 0x02, 0x03, 0x04]),
        Ok(Unpacked::Scaled {
            reference_value: 0x4040_0000,
            binary_scale_factor: 2,
            decimal_scale_factor: -1,
            values: vec![0x0102_0304],
        })
    );
}

#[test]
fn simple_packing_counts_what_the_payload_holds() {
    let decoder = GridPointDataSimplePackingDecoder {};
    let mismatch = Err(GribError::DecodeError(String::from("Length Mismatch")));
    assert_eq!(decoder.decode(&simple(3, 8), &[1, 2, 3, 4]), mismatch);
    assert_eq!(decoder.decode(&simple(5, 8), &[1, 2, 3, 4]), mismatch);
    assert_eq!(decoder.decode(&simple(4, 1), &[0xf0]), mismatch);
    assert_eq!(decoder.decode(&simple(1, 8), &[]), mismatch);
    assert!(decoder.decode(&simple(8, 1), &[0xf0]).is_ok());
    assert!(decoder.decode(&simple(0, 16), &[0xf0]).is_ok());
}

#[test]
fn decoders_refuse_other_templates() {
    let wrong = Err(GribError::ParseError(String::from("Wrong decoder")));
    assert_eq!(GridPointDataSimplePackingDecoder {}.decode(&complex(groups(1)), &[]), wrong);
    assert_eq!(GridPointDataComplexPackingDecoder {}.decode(&simple(0, 0), &[]), wrong);
    assert_eq!(GridPointDataComplexPackingDecoder {}.decode(&spatial(2, groups(1)), &[0; 9]), wrong);
    assert_eq!(GridPointDataComplexPackingSpacialDiffDecoder {}.decode(&complex(groups(1)), &[]), wrong);
    assert!(matches!(
        decode(&simple(0, 0), &[]),
        Err(GribError::ParseError(text)) if text == "Wrong decoder"
    ));
}

#[test]
fn octets_round_up() {
    assert_eq!(octets(0, 10), 0);
    assert_eq!(octets(1, 8), 1);
    assert_eq!(octets(1, 9), 2);
    assert_eq!(octets(7, 3), 3);
    assert_eq!(octets(12, 2), 3);
    assert_eq!(octets(255, 4_294_967_295), 136_902_082_529);
}

#[test]
fn to_signed_is_twos_complement() {
    assert_eq!(to_signed(0), 0);
    assert_eq!(to_signed(7), 7);
    assert_eq!(to_signed(0x7fff_ffff_ffff_ffff), i64::MAX);
    assert_eq!(to_signed(0x8000_0000_0000_0000), i64::MIN);
    assert_eq!(to_signed(u64::MAX), -1);
}

#[test]
fn groups_are_read_from_three_regions() {
    let payload = [10u8, 20, 4, 8, 1, 99, 0x35, 1, 2, 255];
    let (mut groups_iter, size) = decode(&complex(groups(2)), &payload).ok().unwrap();
    assert_eq!(size, 6);
    assert_eq!(groups_iter.next(), Ok(Some(Group { reference: 10, width: 4, length: 2 })));
    assert_eq!(groups_iter.next(), Ok(Some(Group { reference: 20, width: 8, length: 3 })));
    assert_eq!(groups_iter.next(), Ok(None));
    assert_eq!(groups_iter.next(), Ok(None));
}

#[test]
fn group_widths_and_lengths_start_from_their_references() {
    let definition = GroupDefinition {
        num_groups: 3,
        group_widths_reference: 5,
        group_widths_num_bits: 4,
        group_lengths_reference: 100,
        group_lengths_increment: 10,
        group_lengths_last: 7,
        group_scaled_lengths_num_bits: 4,
    };
    // references 1, 2, 3; widths 5+1, 5+2, 5+15; lengths 100+10*3, 100+10*0, last
    let payload = [1u8, 2, 3, 0x12, 0xf0, 0x30, 0xe0];
    let (mut groups_iter, size) = decode(&complex(definition), &payload).ok().unwrap();
    assert_eq!(size, 7);
    assert_eq!(groups_iter.next(), Ok(Some(Group { reference: 1, width: 6, length: 130 })));
    assert_eq!(groups_iter.next(), Ok(Some(Group { reference: 2, width: 7, length: 100 })));
    assert_eq!(groups_iter.next(), Ok(Some(Group { reference: 3, width: 20, length: 7 })));
    assert_eq!(groups_iter.next(), Ok(None));
}

#[test]
fn groups_without_width_bits_have_the_reference_width() {
    let definition = GroupDefinition {
        num_groups: 2,
        group_widths_reference: 8,
        group_widths_num_bits: 0,
        group_lengths_reference: 2,
        group_lengths_increment: 1,
        group_lengths_last: 1,
        group_scaled_lengths_num_bits: 0,
    };
    let payload = [1u8, 2, 10, 20, 30];
    let (mut groups_iter, size) = decode(&complex(definition), &payload).ok().unwrap();
    assert_eq!(size, 2);
    assert_eq!(groups_iter.next(), Ok(Some(Group { reference: 1, width: 8, length: 2 })));
    assert_eq!(groups_iter.next(), Ok(Some(Group { reference: 2, width: 8, length: 1 })));
    assert_eq!(groups_iter.next(), Ok(None));
    assert_eq!(unpack_groups(&complex(definition), &payload), Ok(vec![11, 21, 32]));
}

#[test]
fn groups_need_their_regions() {
    let mismatch = GribError::DecodeError(String::from("Length Mismatch"));
    for len in 0..6 {
        assert_eq!(decode(&complex(groups(2)), &vec![0u8; len]).err(), Some(mismatch.clone()));
    }
    assert!(decode(&complex(groups(2)), &[0u8; 6]).is_ok());
    assert!(decode(&complex(groups(0)), &[]).is_ok());
}

#[test]
fn groups_iterator_ends_when_a_reader_runs_out() {
    let references = [1u8, 2, 3];
    let widths = [4u8, 4];
    let lengths = [1u8, 1, 1];
    let mut groups_iter = GroupsIterator::new(
        BitwiseIterator::new(&references, 8),
        BitwiseIterator::new(&widths, 8),
        BitwiseIterator::new(&lengths, 8),
        groups(3),
    );
    assert_eq!(groups_iter.next(), Ok(Some(Group { reference: 1, width: 4, length: 2 })));
    assert_eq!(groups_iter.next(), Ok(Some(Group { reference: 2, width: 4, length: 2 })));
    assert_eq!(groups_iter.next(), Ok(None));
}

#[test]
fn complex_packing_unpacks_group_by_group() {
    let payload = [10u8, 20, 4, 8, 1, 99, 0x35, 1, 2, 255];
    assert_eq!(unpack_groups(&complex(groups(2)), &payload), Ok(vec![13, 15, 21, 22, 275]));
    assert_eq!(
        GridPointDataComplexPackingDecoder {}.decode(&complex(groups(2)), &payload),
        Ok(scaled(vec![13, 15, 21, 22, 275]))
    );
}

#[test]
fn complex_packing_resumes_inside_a_byte() {
    let payload = [10u8, 20, 4, 8, 0, 99, 0x30, 0x10, 0x2f, 0xf0];
    assert_eq!(unpack_groups(&complex(groups(2)), &payload), Ok(vec![13, 21, 22, 275]));
    let (groups_iter, size) = decode(&complex(groups(2)), &payload).ok().unwrap();
    let mut values = ComplexPackingDecoderIterator::new(&payload[size..], groups_iter);
    assert_eq!(values.next(), Ok(Some(vec![13])));
    assert_eq!(values.next(), Ok(Some(vec![21, 22, 275])));
    assert_eq!(values.next(), Ok(None));
}

#[test]
fn complex_packing_without_groups_gives_nothing() {
    assert_eq!(unpack_groups(&complex(groups(0)), &[]), Ok(vec![]));
    assert_eq!(unpack_groups(&complex(groups(0)), &[1, 2, 3]), Ok(vec![]));
}

#[test]
fn complex_packing_reads_references_as_signed() {
    let mut definition = complex(groups(1));
    if let Data::Data2(data) = &mut definition.data {
        data.num_bits = 64;
        data.group_definition.group_lengths_last = 2;
    }
    let mut payload = (-5i64).to_be_bytes().to_vec();
    payload.extend_from_slice(&[8, 0, 3, 9]);
    assert_eq!(unpack_groups(&definition, &payload), Ok(vec![-2, 4]));
}

#[test]
fn complex_packing_reads_values_as_sign_and_magnitude() {
    let mut definition = complex(groups(1));
    if let Data::Data2(data) = &mut definition.data {
        data.group_definition.group_lengths_last = 2;
    }
    let mut payload = vec![100u8, 64, 0];
    payload.extend_from_slice(&0x8000_0000_0000_0007u64.to_be_bytes());
    payload.extend_from_slice(&7u64.to_be_bytes());
    assert_eq!(unpack_groups(&definition, &payload), Ok(vec![93, 107]));
}

#[test]
fn complex_packing_needs_all_values() {
    let payload = [10u8, 20, 4, 8, 1, 99, 0x35, 1, 2];
    assert_eq!(
        unpack_groups(&complex(groups(2)), &payload),
        Err(GribError::DecodeError(String::from("Length Mismatch")))
    );
}

#[test]
fn complex_packing_reports_overflow() {
    let mut definition = complex(groups(1));
    if let Data::Data2(data) = &mut definition.data {
        data.num_bits = 64;
        data.group_definition.group_lengths_last = 1;
    }
    let mut payload = i64::MAX.to_be_bytes().to_vec();
    payload.extend_from_slice(&[8, 0, 1]);
    assert_eq!(
        unpack_groups(&definition, &payload),
        Err(GribError::DecodeError(String::from("Overflow")))
    );
    payload[10] = 0;
    assert_eq!(unpack_groups(&definition, &payload), Ok(vec![i64::MAX]));
}

#[test]
fn preamble_is_read_as_sign_and_magnitude() {
    assert_eq!(
        read_preamble(2, &[0, 5, 0x80, 6, 0x80, 7, 9]),
        Ok(SpatialPreamble { z1: 5, z2: -6, z_min: -7, size: 6 })
    );
    assert_eq!(
        read_preamble(1, &[0x80, 5, 1, 0, 9, 9]),
        Ok(SpatialPreamble { z1: -5, z2: 0, z_min: 256, size: 4 })
    );
    let mismatch = Err(GribError::DecodeError(String::from("Length Mismatch")));
    assert_eq!(read_preamble(2, &[0; 5]), mismatch);
    assert_eq!(read_preamble(1, &[0; 3]), mismatch);
    assert_eq!(read_preamble(0, &[0; 3]), mismatch);
}

#[test]
fn second_order_differences_are_undone() {
    assert_eq!(undifference(vec![]), Ok(vec![]));
    assert_eq!(undifference(vec![6]), Ok(vec![6]));
    assert_eq!(undifference(vec![6, 7]), Ok(vec![6, 7]));
    assert_eq!(undifference(vec![6, 7, 8, 9]), Ok(vec![6, 7, 16, 34]));
    assert_eq!(undifference(vec![0, 1, 0, 0, 0]), Ok(vec![0, 1, 2, 3, 4]));
    assert_eq!(undifference(vec![5, 3, -1, 2]), Ok(vec![5, 3, 0, -1]));
}

#[test]
fn undifferencing_reports_overflow() {
    let overflow = Err(GribError::DecodeError(String::from("Overflow")));
    assert_eq!(undifference(vec![0, i64::MAX, 0]), overflow);
    assert_eq!(undifference(vec![i64::MAX, 0, 0]), Ok(vec![i64::MAX, 0, -i64::MAX]));
    assert_eq!(undifference(vec![i64::MIN, 0, 0]), overflow);
    assert_eq!(undifference(vec![i64::MIN, 0, -1]), Ok(vec![i64::MIN, 0, i64::MAX]));
    assert_eq!(undifference(vec![1, 0, i64::MIN]), overflow);
}

#[test]
fn undifferencing_iterator_stops_at_an_error() {
    let mut values = SpatialDiff2ndOrderDecodeIterator::new(vec![1, 2, 3, i64::MAX]);
    assert_eq!(values.next(), Ok(Some(1)));
    assert_eq!(values.next(), Ok(Some(2)));
    assert_eq!(values.next(), Ok(Some(6)));
    assert_eq!(values.next(), Err(GribError::DecodeError(String::from("Overflow"))));
    assert_eq!(values.next(), Err(GribError::DecodeError(String::from("Overflow"))));
    let mut none = SpatialDiff2ndOrderDecodeIterator::new(vec![]);
    assert_eq!(none.next(), Ok(None));
}

#[test]
fn spatial_differencing_reads_behind_the_preamble() {
    let mut definition = groups(1);
    definition.group_lengths_last = 4;
    let with_two = [0u8, 1, 0, 2, 0, 3, 5, 8, 0, 1, 2, 3, 4];
    assert_eq!(
        GridPointDataComplexPackingSpacialDiffDecoder {}.decode(&spatial(2, definition), &with_two),
        Ok(scaled(vec![6, 7, 16, 34]))
    );
    let with_one = [0u8, 1, 0, 3, 5, 8, 0, 1, 2, 3, 4];
    assert_eq!(
        GridPointDataComplexPackingSpacialDiffDecoder {}.decode(&spatial(1, definition), &with_one),
        Ok(scaled(vec![6, 7, 16, 34]))
    );
    assert_eq!(
        GridPointDataComplexPackingSpacialDiffDecoder {}.decode(&spatial(2, definition), &[0, 1, 0]),
        Err(GribError::DecodeError(String::from("Length Mismatch")))
    );
}

#[test]
fn iterators_stay_where_they_are_when_nothing_comes() {
    let payload = [10u8, 20, 4, 8, 1, 99, 0x35];
    let (groups_iter, size) = decode(&complex(groups(2)), &payload).ok().unwrap();
    let mut values = ComplexPackingDecoderIterator::new(&payload[size..], groups_iter);
    assert_eq!(values.next(), Ok(Some(vec![13, 15])));
    let mismatch = Err(GribError::DecodeError(String::from("Length Mismatch")));
    assert_eq!(values.next(), mismatch);
    assert_eq!(values.next(), mismatch);
    let mut bits = BitwiseIterator::new(&payload, 40);
    assert_eq!(bits.next(), Some(0x0a_1404_0801));
    assert_eq!(bits.next(), None);
    assert_eq!(bits.byte_position(), 5);
    assert_eq!(bits.bit_offset(), 0);
}
