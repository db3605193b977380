use resultit::FlattenResults;
use resultit::PullSource;
use resultit::StopAfterError;
use resultit::VecSource;
use resultit::flatten_results::flatten;
use resultit::flatten_results::transform;
use resultit::flatten_results::wrap_result;

#[derive(Debug, PartialEq, Clone, Copy)]
struct TestErr(u32);

fn drain<T, S: PullSource<T>>(mut s: S) -> Vec<T> {
    let mut out = Vec::new();
    while let Some(x) = s.next() {
        out.push(x);
    }
    out
}

#[test]
fn flatten_success_path() {
    let v: Vec<Result<Vec<i32>, TestErr>> = vec![Ok(vec![10, 20]), Ok(vec![30, 40])];
    let out = drain(VecSource::new(v).flatten_results());
    assert_eq!(out, vec![Ok(10), Ok(20), Ok(30), Ok(40)]);
}

#[test]
fn flatten_error_passthrough() {
    let v: Vec<Result<Vec<i32>, TestErr>> =
        vec![Ok(vec![1, 2]), Err(TestErr(9)), Ok(vec![5, 6])];
    let out = drain(VecSource::new(v).flatten_results());
    assert_eq!(
        out,
        vec![Ok(1), Ok(2), Err(TestErr(9)), Ok(5), Ok(6)]
    );
}

#[test]
fn flatten_empty_collection() {
    let v: Vec<Result<Vec<i32>, TestErr>> =
        vec![Ok(vec![1, 2]), Ok(vec![]), Ok(vec![3]), Ok(vec![]), Err(TestErr(4))];
    let out = drain(VecSource::new(v).flatten_results());
    assert_eq!(out, vec![Ok(1), Ok(2), Ok(3), Err(TestErr(4))]);
}

#[test]
fn flatten_all_empty_collections() {
    let v: Vec<Result<Vec<i32>, TestErr>> = vec![Ok(vec![]), Ok(vec![]), Ok(vec![])];
    let out = drain(VecSource::new(v).flatten_results());
    assert_eq!(out, Vec::<Result<i32, TestErr>>::new());
}

#[test]
fn flatten_via_free_function() {
    let v: Vec<Result<Vec<i32>, TestErr>> =
        vec![Ok(vec![1, 2]), Ok(vec![3, 4]), Err(TestErr(7)), Ok(vec![5, 6])];
    let out = drain(transform(VecSource::new(v)));
    assert_eq!(
        out,
        vec![Ok(1), Ok(2), Ok(3), Ok(4), Err(TestErr(7)), Ok(5), Ok(6)]
    );
}

#[test]
fn flatten_one_item_expansion() {
    let ok: Vec<Result<i32, TestErr>> = flatten(Ok(vec![1, 2, 3]));
    assert_eq!(ok, vec![Ok(1), Ok(2), Ok(3)]);
    let err: Vec<Result<i32, TestErr>> = flatten(Err(TestErr(5)));
    assert_eq!(err, vec![Err(TestErr(5))]);
    let empty: Vec<Result<i32, TestErr>> = flatten(Ok(vec![]));
    assert_eq!(empty, Vec::<Result<i32, TestErr>>::new());
}

#[test]
fn wrap_result_is_success() {
    let r: Result<i32, TestErr> = wrap_result(41);
    assert_eq!(r, Ok(41));
}

#[test]
fn truncate_basic() {
    let v: Vec<Result<i32, TestErr>> = vec![Ok(1), Ok(2), Err(TestErr(3)), Ok(3)];
    let mut it = VecSource::new(v).stop_after_error();
    assert_eq!(it.next(), Some(Ok(1)));
    assert_eq!(it.next(), Some(Ok(2)));
    assert_eq!(it.next(), Some(Err(TestErr(3))));
    assert_eq!(it.next(), None);
    assert_eq!(it.next(), None);
}

#[test]
fn truncate_no_errors() {
    let v: Vec<Result<i32, TestErr>> = vec![Ok(1), Ok(2), Ok(3), Ok(4), Ok(5)];
    let out = drain(VecSource::new(v.clone()).stop_after_error());
    assert_eq!(out, v);
}

#[test]
fn truncate_error_first() {
    let v: Vec<Result<i32, TestErr>> = vec![Err(TestErr(1)), Ok(2), Err(TestErr(3))];
    let out = drain(VecSource::new(v).stop_after_error());
    assert_eq!(out, vec![Err(TestErr(1))]);
}

#[test]
fn truncate_empty_source() {
    let v: Vec<Result<i32, TestErr>> = Vec::new();
    let out = drain(VecSource::new(v).stop_after_error());
    assert_eq!(out, Vec::<Result<i32, TestErr>>::new());
}

#[test]
fn truncate_twice_is_once() {
    let v: Vec<Result<i32, TestErr>> = vec![Ok(1), Err(TestErr(2)), Ok(3), Err(TestErr(4))];
    let once = drain(VecSource::new(v.clone()).stop_after_error());
    let twice = drain(VecSource::new(v).stop_after_error().stop_after_error());
    assert_eq!(once, vec![Ok(1), Err(TestErr(2))]);
    assert_eq!(twice, once);
}

#[test]
fn compose_flatten_then_truncate() {
    // Collections whose elements are themselves results, so a failure can
    // hide at the inner nesting level.
    let v: Vec<Result<Vec<Result<i32, TestErr>>, TestErr>> = vec![
        Ok(vec![Ok(1), Ok(2)]),
        Ok(vec![Err(TestErr(2)), Ok(5)]),
        Ok(vec![Ok(6), Ok(7)]),
    ];
    let flat: Vec<Result<Result<i32, TestErr>, TestErr>> =
        drain(VecSource::new(v).flatten_results());
    // Collapse the two error levels into one, as a caller of the library
    // would before handing the sequence to the truncating adapter.
    let collapsed: Vec<Result<i32, TestErr>> = flat
        .into_iter()
        .map(|r| match r {
            Ok(Ok(x)) => Ok(x),
            Ok(Err(e)) => Err(e),
            Err(e) => Err(e),
        })
        .collect();
    let out = drain(VecSource::new(collapsed).stop_after_error());
    assert_eq!(out, vec![Ok(1), Ok(2), Err(TestErr(2))]);
}

#[test]
fn compose_outer_error_ends_chain() {
    let v: Vec<Result<Vec<i32>, TestErr>> =
        vec![Ok(vec![1, 2]), Err(TestErr(8)), Ok(vec![5, 6])];
    let out = drain(VecSource::new(v).flatten_results().stop_after_error());
    assert_eq!(out, vec![Ok(1), Ok(2), Err(TestErr(8))]);
}

#[test]
fn truncate_is_lazy() {
    let v: Vec<Result<i32, TestErr>> = vec![Ok(1), Err(TestErr(2)), Ok(3), Ok(4), Ok(5)];
    let mut it = VecSource::new(v).stop_after_error();
    assert_eq!(it.next(), Some(Ok(1)));
    let src = it.into_inner();
    // Exactly one of the five underlying items has been pulled.
    assert_eq!(src.len(), 4);

    let v2: Vec<Result<i32, TestErr>> = vec![Ok(1), Err(TestErr(2)), Ok(3), Ok(4), Ok(5)];
    let mut it2 = VecSource::new(v2).stop_after_error();
    assert_eq!(it2.next(), Some(Ok(1)));
    assert_eq!(it2.next(), Some(Err(TestErr(2))));
    assert_eq!(it2.next(), None);
    assert_eq!(it2.next(), None);
    let src2 = it2.into_inner();
    // The error halted the adapter: the three items past it were never
    // pulled, no matter how often the caller kept asking.
    assert_eq!(src2.len(), 3);
}

#[test]
fn flatten_is_lazy() {
    let v: Vec<Result<Vec<i32>, TestErr>> =
        vec![Ok(vec![1, 2, 3]), Ok(vec![4]), Err(TestErr(9))];
    let mut it = VecSource::new(v).flatten_results();
    assert_eq!(it.next(), Some(Ok(1)));
    assert_eq!(it.next(), Some(Ok(2)));
    let (src, buffer) = it.into_parts();
    // Only the first collection has been pulled from the source; its third
    // element is still buffered, and nothing beyond it was touched.
    assert_eq!(src.len(), 2);
    assert_eq!(buffer, vec![Ok(3)]);
}
