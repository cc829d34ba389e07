use std::cmp::Ordering;
use std::cmp::PartialOrd;

use bldr::package::Package;
use bldr::version::{split_version, version_sort};

#[test]
fn package_partial_eq() {
    let a = Package::new("bldr".to_string(),
                         "bldr".to_string(),
                         "1.0.0".to_string(),
                         "20150521131555".to_string());
    let b = Package::new("bldr".to_string(),
                         "bldr".to_string(),
                         "1.0.0".to_string(),
                         "20150521131555".to_string());
    assert_eq!(a, b);
}

#[test]
fn package_partial_ord() {
    let a = Package::new("bldr".to_string(),
                         "bldr".to_string(),
                         "1.0.1".to_string(),
                         "20150521131555".to_string());
    let b = Package::new("bldr".to_string(),
                         "bldr".to_string(),
                         "1.0.0".to_string(),
                         "20150521131555".to_string());
    match a.partial_cmp(&b) {
        Some(ord) => assert_eq!(ord, Ordering::Greater),
        None => panic!("Ordering should be greater"),
    }
}

#[test]
fn package_partial_ord_bad_name() {
    let a = Package::new("bldr".to_string(),
                         "snoopy".to_string(),
                         "1.0.1".to_string(),
                         "20150521131555".to_string());
    let b = Package::new("bldr".to_string(),
                         "bldr".to_string(),
                         "1.0.0".to_string(),
                         "20150521131555".to_string());
    match a.partial_cmp(&b) {
        Some(_) => panic!("We tried to return an order"),
        None => assert!(true),
    }
}

#[test]
fn package_partial_ord_different_derivation() {
    let a = Package::new("adam".to_string(),
                         "bldr".to_string(),
                         "1.0.0".to_string(),
                         "20150521131555".to_string());
    let b = Package::new("bldr".to_string(),
                         "bldr".to_string(),
                         "1.0.0".to_string(),
                         "20150521131555".to_string());
    match a.partial_cmp(&b) {
        Some(ord) => assert_eq!(ord, Ordering::Equal),
        None => panic!("We failed to return an order"),
    }
}

#[test]
fn package_partial_ord_release() {
    let a = Package::new("adam".to_string(),
                         "bldr".to_string(),
                         "1.0.0".to_string(),
                         "20150521131556".to_string());
    let b = Package::new("bldr".to_string(),
                         "bldr".to_string(),
                         "1.0.0".to_string(),
                         "20150521131555".to_string());
    match a.partial_cmp(&b) {
        Some(ord) => assert_eq!(ord, Ordering::Greater),
        None => panic!("We failed to return an order"),
    }
}

#[test]
fn split_version_returns_both_parts() {
    let svr = split_version("1.2.3-beta16");
    match svr {
        Ok((version_parts, Some(extension))) => {
            assert_eq!(vec!["1", "2", "3"], version_parts);
            assert_eq!("beta16", extension);
        }
        Ok((_, None)) => panic!("Has an extension"),
        Err(e) => panic!("{:?}", e),
    }
}

#[test]
fn version_sort_simple() {
    match version_sort("1.0.0", "2.0.0") {
        Ok(compare) => assert_eq!(compare, Ordering::Less),
        Err(e) => panic!("{:?}", e),
    }
    match version_sort("2.0.1", "2.0.0") {
        Ok(compare) => assert_eq!(compare, Ordering::Greater),
        Err(e) => panic!("{:?}", e),
    }
    match version_sort("2.1.1", "2.1.1") {
        Ok(compare) => assert_eq!(compare, Ordering::Equal),
        Err(e) => panic!("{:?}", e),
    }
    match version_sort("20150521131347", "20150521131346") {
        Ok(compare) => assert_eq!(compare, Ordering::Greater),
        Err(e) => panic!("{:?}", e),
    }
}

#[test]
fn version_sort_complex() {
    match version_sort("1.0.0-alpha2", "1.0.0-alpha1") {
        Ok(compare) => assert_eq!(compare, Ordering::Greater),
        Err(e) => panic!("{:?}", e),
    }
    match version_sort("1.0.0-alpha1", "1.0.0-alpha2") {
        Ok(compare) => assert_eq!(compare, Ordering::Less),
        Err(e) => panic!("{:?}", e),
    }
    match version_sort("1.0.0-beta1", "1.0.0-alpha1000") {
        Ok(compare) => assert_eq!(compare, Ordering::Greater),
        Err(e) => panic!("{:?}", e),
    }
    match version_sort("2.1.1", "2.1.1-alpha2") {
        Ok(compare) => assert_eq!(compare, Ordering::Greater),
        Err(e) => panic!("{:?}", e),
    }
    match version_sort("2.1.1-alpha2", "2.1.1") {
        Ok(compare) => assert_eq!(compare, Ordering::Less),
        Err(e) => panic!("{:?}", e),
    }
}
