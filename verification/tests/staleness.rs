use zmake::BuildError;
use zmake::stale::is_dirty;

#[test]
fn missing_output_is_always_stale() {
    assert_eq!(is_dirty(None, &vec![Some(5), Some(10)]).unwrap(), true);
    assert_eq!(is_dirty(None, &Vec::new()).unwrap(), true);
    // A missing output is stale before any source is examined.
    assert_eq!(is_dirty(None, &vec![None]).unwrap(), true);
}

#[test]
fn output_newer_than_all_sources_is_fresh() {
    assert_eq!(is_dirty(Some(100), &vec![Some(5), Some(10), Some(100)]).unwrap(), false);
    assert_eq!(is_dirty(Some(100), &Vec::new()).unwrap(), false);
}

#[test]
fn touching_one_source_flips_to_stale() {
    let fresh = vec![Some(5), Some(10)];
    assert_eq!(is_dirty(Some(50), &fresh).unwrap(), false);
    let touched = vec![Some(5), Some(51)];
    assert_eq!(is_dirty(Some(50), &touched).unwrap(), true);
}

#[test]
fn unreadable_source_is_a_fatal_filesystem_error() {
    let r = is_dirty(Some(50), &vec![Some(5), None]);
    assert!(matches!(r, Err(BuildError::Filesystem(_))));
}

#[test]
fn error_description_names_the_offending_source() {
    let r = is_dirty(Some(50), &vec![Some(5), None]);
    let e = r.err().unwrap();
    assert_eq!(e.describe(), "cannot stat declared source 1");
    let r2 = is_dirty(Some(50), &vec![None]);
    assert_eq!(r2.err().unwrap().describe(), "cannot stat declared source 0");
}
