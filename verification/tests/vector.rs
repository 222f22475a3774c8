use std::mem::size_of;

use stl_containers::raw::RawString;
use stl_containers::raw::RawVector;
use stl_containers::string::String as StlString;
use stl_containers::vector::VectorInsert;
use stl_containers::vector::VectorOfF32;
use stl_containers::vector::VectorOfI32;
use stl_containers::vector::VectorOfI64;
use stl_containers::vector::VectorOfU8;
use stl_containers::vector::VectorOfUniquePtr;
use stl_containers::vector::VectorRemove;
use stl_containers::vector::VectorSlice;

struct Name {
    first_name: StlString,
    last_name: StlString,
}

struct Subclass {
    #[allow(dead_code)]
    parent: i32,
    value: i32,
    desc: StlString,
}

struct StructWithVectors {
    ids: VectorOfI32,
    names: VectorOfUniquePtr<Name>,
    ages: VectorOfI32,
    cities: VectorOfUniquePtr<StlString>,
    derived: VectorOfUniquePtr<Subclass>,
}

fn stl(text: &[u8]) -> StlString {
    StlString::overlay(RawString::holding(text))
}

fn lossy(s: &StlString) -> std::string::String {
    let bytes = s.c_str();
    assert_eq!(bytes.last(), Some(&0u8));
    std::string::String::from_utf8_lossy(&bytes[..bytes.len() - 1]).into_owned()
}

fn ints(cells: Vec<i32>) -> VectorOfI32 {
    VectorOfI32::overlay(RawVector::holding(cells))
}

fn fixture() -> StructWithVectors {
    StructWithVectors {
        ids: ints(vec![10, 18, 23, 31]),
        names: VectorOfUniquePtr::overlay(RawVector::holding(vec![
            Box::new(Name {
                first_name: stl(b"boncheol"),
                last_name: stl(b"gu"),
            }),
            Box::new(Name {
                first_name: stl(b"bora"),
                last_name: stl(b"hong"),
            }),
        ])),
        ages: ints(vec![7, 10, 42]),
        cities: VectorOfUniquePtr::overlay(RawVector::holding(vec![Box::new(stl(
            b"seoungnam",
        ))])),
        derived: VectorOfUniquePtr::overlay(RawVector::holding(vec![Box::new(Subclass {
            parent: 0,
            value: 99,
            desc: stl(b"derived"),
        })])),
    }
}

#[test]
fn unittest_vector() {
    assert_eq!(size_of::<VectorOfI32>(), size_of::<RawVector<i32>>());

    assert_eq!(
        size_of::<VectorOfUniquePtr<i32>>(),
        size_of::<RawVector<Box<()>>>()
    );

    let mut x = fixture();

    assert_eq!(x.ids.size(), 4);
    assert_eq!(x.names.size(), 2);
    assert_eq!(x.ages.size(), 3);
    assert_eq!(x.cities.size(), 1);
    assert_eq!(x.ids.as_slice(), &[10i32, 18, 23, 31]);
    let mut first_names = Vec::new();
    let mut walk = x.names.iter();
    while let Some(name) = walk.next() {
        first_names.push(lossy(&name.first_name));
    }
    assert_eq!(first_names, vec!["boncheol", "bora"]);
    assert_eq!(lossy(&x.names[0].first_name), "boncheol");
    assert_eq!(lossy(&x.names[0].last_name), "gu");
    assert_eq!(lossy(&x.names[1].first_name), "bora");
    assert_eq!(lossy(&x.names[1].last_name), "hong");
    assert_eq!(x.ages[0], 7);
    assert_eq!(x.ages[1], 10);
    assert_eq!(x.ages[2], 42);
    assert_eq!(lossy(&x.cities[0]), "seoungnam");
    assert_eq!(x.derived[0].value, 99);
    assert_eq!(lossy(&x.derived[0].desc), "derived");

    x.ids[0] = 20;
    x.ids[2] = 43;
    assert_eq!(x.ids.as_slice(), &[20i32, 18, 43, 31]);

    x.ids.push_back(9);
    assert_eq!(x.ids.size(), 5);
    assert_eq!(x.ids.last().unwrap(), &9);

    x.ages.assign(vec![8, 7]);
    assert_eq!(x.ages.as_slice(), &[8, 7]);
}

#[test]
fn writes_in_place_then_push_back() {
    let mut ids = ints(vec![10, 18, 23, 31]);
    ids.as_mut_slice()[0] = 20;
    ids.as_mut_slice()[2] = 43;
    assert_eq!(ids.as_slice(), &[20, 18, 43, 31]);
    ids.push_back(9);
    assert_eq!(ids.as_slice(), &[20, 18, 43, 31, 9]);
    assert_eq!(ids.size(), 5);
    assert_eq!(ids.as_slice()[4], 9);
}

#[test]
fn push_back_keeps_the_order_of_the_calls() {
    let mut v = ints(vec![]);
    let values = [5, -3, 5, 0, i32::MAX, i32::MIN, 7];
    for (n, value) in values.iter().enumerate() {
        v.push_back(*value);
        assert_eq!(v.size(), n + 1);
        assert_eq!(v.as_slice(), &values[..n + 1]);
    }
    assert_eq!(v.size(), 7);
    assert_eq!(v.as_slice(), &values);
}

#[test]
fn push_back_appends_to_what_is_there() {
    let mut v = ints(vec![1, 2]);
    v.push_back(3);
    v.push_back(4);
    assert_eq!(v.as_slice(), &[1, 2, 3, 4]);
}

#[test]
fn assign_replaces_prior_contents() {
    let mut v = ints(vec![1, 2, 3, 4, 5, 6]);
    v.assign(vec![9, 8]);
    assert_eq!(v.as_slice(), &[9, 8]);
    v.assign(vec![4, 4, 4, 1]);
    assert_eq!(v.as_slice(), &[4, 4, 4, 1]);
    v.assign(vec![]);
    assert_eq!(v.as_slice(), &[] as &[i32]);
    assert_eq!(v.size(), 0);
    v.assign(vec![3]);
    assert_eq!(v.as_slice(), &[3]);
}

#[test]
fn resize_grows_with_copies_of_the_fill_value() {
    let mut v = ints(vec![1, 2]);
    v.resize(5, 7);
    assert_eq!(v.as_slice(), &[1, 2, 7, 7, 7]);
    assert_eq!(v.size(), 5);
}

#[test]
fn resize_shrinks_to_the_first_cells() {
    let mut v = ints(vec![1, 2, 3, 4, 5]);
    v.resize(2, 7);
    assert_eq!(v.as_slice(), &[1, 2]);
    v.resize(0, 7);
    assert_eq!(v.size(), 0);
}

#[test]
fn resize_to_the_same_size_changes_nothing() {
    let mut v = ints(vec![1, 2, 3]);
    v.resize(3, 7);
    assert_eq!(v.as_slice(), &[1, 2, 3]);
    let mut e = ints(vec![]);
    e.resize(0, 1);
    assert_eq!(e.size(), 0);
}

#[test]
fn retain_removes_where_the_predicate_holds() {
    let mut v = ints(vec![10, 18, 23, 31]);
    v.retain(|i: usize, _: &i32| i == 1 || i == 3);
    assert_eq!(v.as_slice(), &[10, 23]);
}

#[test]
fn retain_sees_each_cell_with_its_index() {
    let mut v = ints(vec![0, 5, 2, 3, 9, 5]);
    v.retain(|i: usize, cell: &i32| *cell == i as i32);
    assert_eq!(v.as_slice(), &[5, 9]);
}

#[test]
fn retain_keeps_order_and_handles_the_ends() {
    let mut v = ints(vec![1, 2, 3, 4, 5, 6]);
    v.retain(|_: usize, cell: &i32| cell % 2 == 1);
    assert_eq!(v.as_slice(), &[2, 4, 6]);
    v.retain(|_: usize, _: &i32| false);
    assert_eq!(v.as_slice(), &[2, 4, 6]);
    v.retain(|i: usize, _: &i32| i == 0);
    assert_eq!(v.as_slice(), &[4, 6]);
    v.retain(|i: usize, _: &i32| i == 1);
    assert_eq!(v.as_slice(), &[4]);
    v.retain(|_: usize, _: &i32| true);
    assert_eq!(v.size(), 0);
    v.retain(|_: usize, _: &i32| true);
    assert_eq!(v.size(), 0);
}

#[test]
fn clear_leaves_nothing() {
    let mut v = ints(vec![1, 2, 3]);
    v.clear();
    assert_eq!(v.size(), 0);
    assert!(v.as_slice().is_empty());
    v.clear();
    assert_eq!(v.size(), 0);
    assert!(v.as_slice().is_empty());
}

#[test]
fn erase_range_removes_a_run() {
    let mut v = ints(vec![0, 1, 2, 3, 4, 5]);
    v.erase_range(1, 3);
    assert_eq!(v.as_slice(), &[0, 4, 5]);
    v.erase_range(3, 0);
    assert_eq!(v.as_slice(), &[0, 4, 5]);
    v.erase_range(0, 0);
    assert_eq!(v.as_slice(), &[0, 4, 5]);
    v.erase_range(1, 2);
    assert_eq!(v.as_slice(), &[0]);
    v.erase_range(0, 1);
    assert_eq!(v.size(), 0);
}

#[test]
fn erase_and_pop_back_remove_one_cell() {
    let mut v = ints(vec![0, 1, 2, 3]);
    v.erase(1);
    assert_eq!(v.as_slice(), &[0, 2, 3]);
    v.pop_back();
    assert_eq!(v.as_slice(), &[0, 2]);
    v.erase(0);
    assert_eq!(v.as_slice(), &[2]);
    v.pop_back();
    assert_eq!(v.size(), 0);
}

#[test]
fn truncate_keeps_the_first_cells() {
    let mut v = ints(vec![0, 1, 2, 3]);
    v.truncate(4);
    assert_eq!(v.as_slice(), &[0, 1, 2, 3]);
    v.truncate(1);
    assert_eq!(v.as_slice(), &[0]);
    v.truncate(0);
    assert_eq!(v.size(), 0);
}

#[test]
fn the_other_scalar_wrappers_behave_alike() {
    let mut bytes = VectorOfU8::overlay(RawVector::holding(vec![1u8, 2, 3]));
    bytes.push_back(255);
    bytes.erase(0);
    assert_eq!(bytes.as_slice(), &[2u8, 3, 255]);
    bytes[1] = 9;
    assert_eq!(bytes.as_slice(), &[2u8, 9, 255]);

    let mut longs = VectorOfI64::overlay(RawVector::holding(vec![i64::MIN, 0]));
    longs.push_back(i64::MAX);
    longs.truncate(2);
    longs.resize(3, -1);
    assert_eq!(longs.as_slice(), &[i64::MIN, 0, -1]);

    let mut floats = VectorOfF32::overlay(RawVector::holding(vec![1.5f32.to_bits()]));
    floats.push_back(0.25f32.to_bits());
    floats.push_back((-2.0f32).to_bits());
    floats.retain(|_: usize, bits: &u32| f32::from_bits(*bits) < 0.0);
    let seen: Vec<f32> = floats.as_slice().iter().map(|b| f32::from_bits(*b)).collect();
    assert_eq!(seen, vec![1.5f32, 0.25]);
}

#[test]
fn a_wrapper_can_be_walked_by_reference() {
    let v = ints(vec![3, 1, 2]);
    let mut seen = Vec::new();
    for cell in &v {
        seen.push(*cell);
    }
    assert_eq!(seen, vec![3, 1, 2]);
    let bytes = VectorOfU8::overlay(RawVector::holding(vec![7u8, 8]));
    let doubled: Vec<u16> = (&bytes).into_iter().map(|b| *b as u16 * 2).collect();
    assert_eq!(doubled, vec![14u16, 16]);
    let none = ints(vec![]);
    assert_eq!((&none).into_iter().count(), 0);
}

#[test]
fn owned_pointer_cells_are_read_through() {
    let x = fixture();
    assert_eq!(x.names.size(), 2);
    assert_eq!(x.names.as_slice().len(), 2);
    assert_eq!(lossy(&x.names.as_slice()[1].last_name), "hong");
    let mut seen = Vec::new();
    let mut walk = x.names.iter();
    while let Some(name) = walk.next() {
        seen.push((lossy(&name.first_name), lossy(&name.last_name)));
    }
    assert!(walk.next().is_none());
    assert!(walk.next().is_none());
    assert_eq!(
        seen,
        vec![
            ("boncheol".to_string(), "gu".to_string()),
            ("bora".to_string(), "hong".to_string())
        ]
    );
    let empty: VectorOfUniquePtr<i32> = VectorOfUniquePtr::overlay(RawVector::holding(vec![]));
    assert!(empty.iter().next().is_none());
}

#[test]
fn owned_pointer_cells_are_written_through() {
    let mut x = fixture();
    x.derived.index_mut(0).value = 100;
    assert_eq!(x.derived[0].value, 100);
    x.names.index_mut(1).last_name.assign(b"gu\0");
    assert_eq!(lossy(&x.names[1].last_name), "gu");
    assert_eq!(lossy(&x.names[0].last_name), "gu");
    assert_eq!(lossy(&x.names[1].first_name), "bora");
    assert_eq!(x.names.size(), 2);
}

struct Ring {
    cells: Vec<u16>,
    erased: Vec<(usize, usize)>,
}

impl VectorSlice for Ring {
    type Item = u16;

    fn size(&self) -> usize {
        self.cells.len()
    }

    fn as_slice(&self) -> &[u16] {
        &self.cells
    }

    fn as_mut_slice(&mut self) -> &mut [u16] {
        &mut self.cells
    }
}

impl VectorRemove for Ring {
    fn erase_range(&mut self, offset: usize, len: usize) {
        self.erased.push((offset, len));
        self.cells.drain(offset..offset + len);
    }
}

impl VectorInsert<u16> for Ring {
    fn push_back(&mut self, v: u16) {
        self.cells.push(v);
    }
}

#[test]
fn derived_operations_work_over_any_implementor() {
    let mut r = Ring {
        cells: vec![1, 2, 3, 4, 5],
        erased: Vec::new(),
    };
    r.retain(|i: usize, _: &u16| i == 1 || i == 3);
    assert_eq!(r.cells, vec![1, 3, 5]);
    assert_eq!(r.erased, vec![(3, 1), (1, 1)]);
    r.erased.clear();
    r.clear();
    assert_eq!(r.erased, vec![(2, 1), (1, 1), (0, 1)]);
    r.assign(vec![7, 8]);
    r.resize(4, 0);
    assert_eq!(r.cells, vec![7, 8, 0, 0]);
    r.erased.clear();
    r.truncate(1);
    assert_eq!(r.erased, vec![(1, 3)]);
    assert_eq!(r.cells, vec![7]);
}
