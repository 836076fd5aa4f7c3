use aerogel::drain;
use aerogel::parallel::IntoParallelIterator;
use std::time::SystemTime;
use std::time::UNIX_EPOCH;

#[test]
fn con_test_sum() {}

#[test]
fn lib_test_processor() {
    let mut a = vec![1, 2, 3, 4, 5];
    drain(&mut a);
    println!("{:?}", a);
    assert_eq!(a, vec![5]);
}

#[test]
fn parallel_test_sum() {
    let a: [usize; 1000] = [1; 1000];
    for _ in 0..3 {
        let time1 = SystemTime::now().duration_since(UNIX_EPOCH).unwrap().as_nanos();
        let c: usize = (&a[..]).into_aer_iter().sum();
        let time2 = SystemTime::now().duration_since(UNIX_EPOCH).unwrap().as_nanos();
        println!("{}", c);
        println!("{}", time2 - time1);
        assert_eq!(c, 1000);
    }
    println!("===================");
}

#[test]
fn processor_test_processor() {}

#[test]
fn test_localqueue() {}

#[test]
fn test_globalqueue() {}
