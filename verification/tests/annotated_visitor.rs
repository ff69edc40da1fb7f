use iota_logic::annotated_visitor::{
    skip_value, visit_value, Error, MoveFieldLayout, MoveStructLayout, MoveTypeLayout,
    NullTraversal, StructDriver, VecDriver, Visitor, U256,
};
use iota_logic::base_types::IotaAddress;
use iota_logic::move_types::StructTag;

/// Adds up every integer it meets; visits only the first element of a vector
/// and the first field of a struct, leaving the rest to be skipped.
struct Summer;

impl Visitor for Summer {
    type Value = u128;
    type Error = Error;

    fn visit_u8(&mut self, value: u8) -> Result<u128, Error> {
        Ok(value as u128)
    }
    fn visit_u16(&mut self, value: u16) -> Result<u128, Error> {
        Ok(value as u128)
    }
    fn visit_u32(&mut self, value: u32) -> Result<u128, Error> {
        Ok(value as u128)
    }
    fn visit_u64(&mut self, value: u64) -> Result<u128, Error> {
        Ok(value as u128)
    }
    fn visit_u128(&mut self, value: u128) -> Result<u128, Error> {
        Ok(value)
    }
    fn visit_u256(&mut self, value: U256) -> Result<u128, Error> {
        Ok(value.0[0] as u128)
    }
    fn visit_bool(&mut self, value: bool) -> Result<u128, Error> {
        Ok(value as u128)
    }
    fn visit_address(&mut self, value: IotaAddress) -> Result<u128, Error> {
        Ok(value.0[31] as u128)
    }
    fn visit_signer(&mut self, value: IotaAddress) -> Result<u128, Error> {
        Ok(value.0[31] as u128)
    }
    fn visit_vector(&mut self, driver: &mut VecDriver<'_, '_>) -> Result<u128, Error> {
        let n = driver.len() as u128;
        let first = driver.next_element(self)?.unwrap_or(0);
        Ok(n * 1000 + first)
    }
    fn visit_struct(&mut self, driver: &mut StructDriver<'_, '_>) -> Result<u128, Error> {
        let n = driver.struct_layout().fields.len() as u128;
        let first = match driver.next_field(self)? {
            Some((_, v)) => v,
            None => 0,
        };
        Ok(n * 1000 + first)
    }
}

fn pair_layout() -> MoveTypeLayout {
    MoveTypeLayout::Struct(Box::new(MoveStructLayout {
        type_: StructTag {
            address: IotaAddress([0; 32]),
            module: "m".to_string(),
            name: "Pair".to_string(),
            type_params: vec![],
        },
        fields: vec![
            MoveFieldLayout { name: "a".to_string(), layout: MoveTypeLayout::U64 },
            MoveFieldLayout {
                name: "b".to_string(),
                layout: MoveTypeLayout::Vector(Box::new(MoveTypeLayout::U16)),
            },
        ],
    }))
}

#[test]
fn vector_visit_consumes_the_whole_value() {
    let layout = MoveTypeLayout::Vector(Box::new(MoveTypeLayout::U64));
    let data = bcs::to_bytes(&vec![7u64, 8, 9]).unwrap();
    let mut input = data.as_slice();
    let mut extra = data.clone();
    extra.push(0xee);
    let v = visit_value(&mut input, &layout, &mut Summer).unwrap();
    assert_eq!(v, 3007);
    assert!(input.is_empty());
    let mut with_tail = extra.as_slice();
    visit_value(&mut with_tail, &layout, &mut Summer).unwrap();
    assert_eq!(with_tail, &[0xee]);
}

#[test]
fn struct_visit_skips_unvisited_fields() {
    let data = bcs::to_bytes(&(42u64, vec![1u16, 2, 3])).unwrap();
    let mut input = data.as_slice();
    let v = visit_value(&mut input, &pair_layout(), &mut Summer).unwrap();
    assert_eq!(v, 2042);
    assert!(input.is_empty());
}

#[test]
fn skip_value_reads_one_value_of_the_layout() {
    let data = bcs::to_bytes(&((5u64, vec![1u16; 200]), true)).unwrap();
    let mut input = data.as_slice();
    skip_value(&mut input, &pair_layout()).unwrap();
    assert_eq!(input, &[1u8]);
    skip_value(&mut input, &MoveTypeLayout::Bool).unwrap();
    assert!(input.is_empty());
}

#[test]
fn malformed_values_fail() {
    let mut short: &[u8] = &[1, 2, 3];
    assert_eq!(skip_value(&mut short, &MoveTypeLayout::U64), Err(Error::UnexpectedEof));
    let mut bad_bool: &[u8] = &[2];
    assert_eq!(skip_value(&mut bad_bool, &MoveTypeLayout::Bool), Err(Error::UnexpectedByte(2)));
    let mut long_vector: &[u8] = &[5, 1, 2];
    let layout = MoveTypeLayout::Vector(Box::new(MoveTypeLayout::U8));
    assert!(visit_value(&mut long_vector, &layout, &mut Summer).is_err());
    let mut leb_too_long: &[u8] = &[0xff; 11];
    assert!(skip_value(&mut leb_too_long, &layout).is_err());
}

#[test]
fn u256_and_addresses_are_read_whole() {
    let mut bytes = vec![9u8];
    bytes.extend_from_slice(&[0u8; 31]);
    let mut input = bytes.as_slice();
    assert_eq!(visit_value(&mut input, &MoveTypeLayout::U256, &mut Summer), Ok(9));
    let mut addr = [0u8; 32];
    addr[31] = 77;
    let mut input = &addr[..];
    assert_eq!(visit_value(&mut input, &MoveTypeLayout::Address, &mut Summer), Ok(77));
}

#[test]
fn null_traversal_succeeds_exactly_on_well_encoded_values() {
    let layout = MoveTypeLayout::Vector(Box::new(MoveTypeLayout::U16));
    let good: [u8; 6] = [2, 1, 0, 2, 0, 9];
    let mut b: &[u8] = &good;
    assert!(visit_value(&mut b, &layout, &mut NullTraversal).is_ok());
    assert_eq!(b, &[9u8][..]);
    let short: [u8; 4] = [2, 1, 0, 2];
    let mut c: &[u8] = &short;
    assert!(matches!(
        visit_value(&mut c, &layout, &mut NullTraversal),
        Err(Error::UnexpectedEof)
    ));
    let mut d: &[u8] = &[2u8][..];
    assert!(matches!(
        visit_value(&mut d, &MoveTypeLayout::Bool, &mut NullTraversal),
        Err(Error::UnexpectedByte(2))
    ));
}

#[test]
fn the_visitor_gets_the_little_endian_value() {
    let mut b: &[u8] = &[0x01u8, 0x02, 0xff][..];
    assert_eq!(visit_value(&mut b, &MoveTypeLayout::U16, &mut Summer).unwrap(), 513);
    assert_eq!(b, &[0xffu8][..]);
    let mut t: &[u8] = &[1u8][..];
    assert_eq!(visit_value(&mut t, &MoveTypeLayout::Bool, &mut Summer).unwrap(), 1);
    let mut short: &[u8] = &[0x01u8][..];
    assert!(matches!(
        visit_value(&mut short, &MoveTypeLayout::U16, &mut Summer),
        Err(Error::UnexpectedEof)
    ));
}

#[test]
fn skipping_never_fails_on_left_over_bytes() {
    let layout = MoveTypeLayout::Vector(Box::new(MoveTypeLayout::Bool));
    let mut extra: &[u8] = &[1, 1, 0, 0, 0];
    assert_eq!(skip_value(&mut extra, &layout), Ok(()));
    assert_eq!(extra, &[0u8, 0, 0][..]);
    let mut short: &[u8] = &[3, 1];
    assert_eq!(skip_value(&mut short, &layout), Err(Error::UnexpectedEof));
    let mut bad: &[u8] = &[2, 1, 7, 9];
    assert_eq!(skip_value(&mut bad, &layout), Err(Error::UnexpectedByte(7)));
}
