use ping0::auth::AuthError;
use ping0::fault::Fault;
use ping0::store::StoreError;
use ping0::submit::SubmitError;
use ping0::upload::{accept_whole, accept_whole_with_id, Rejection, Upload, MAX_FILE_SIZE};

const ID: &str = "123e4567-e89b-42d3-a456-426614174000";

#[test]
fn limit_is_one_gibibyte() {
    assert_eq!(MAX_FILE_SIZE, 1024 * 1024 * 1024);
}

#[test]
fn faults_are_told_apart() {
    assert_eq!(Rejection::ExtensionNotAllowed("exe".to_string()).fault(), Fault::Client);
    assert_eq!(Rejection::TooLarge.fault(), Fault::Client);
    assert_eq!(Rejection::Storage.fault(), Fault::Server);
    assert_eq!(SubmitError::NoInput.fault(), Fault::Client);
    assert_eq!(SubmitError::InvalidUrl.fault(), Fault::Client);
    assert_eq!(SubmitError::CodesExhausted.fault(), Fault::Server);
    assert_eq!(AuthError::MissingCredentials.fault(), Fault::Client);
    assert_eq!(AuthError::InvalidCredentials.fault(), Fault::Client);
    assert_eq!(AuthError::InvalidSession.fault(), Fault::Client);
    assert_eq!(StoreError::NotFound.fault(), Fault::NotFound);
    assert_eq!(StoreError::DuplicateCode.fault(), Fault::Server);
}

#[test]
fn stored_name_is_id_and_extension() {
    let u = Upload::begin_with_id("holiday photo.PNG", ID, 10).unwrap();
    assert_eq!(u.name(), "123e4567-e89b-42d3-a456-426614174000.PNG");
    assert_eq!(u.written(), 0);
    let f = u.finish();
    assert_eq!(f.generated_name, "123e4567-e89b-42d3-a456-426614174000.PNG");
}

#[test]
fn declared_name_never_reaches_the_stored_name() {
    let u = Upload::begin_with_id("../../etc/passwd.txt", ID, 10).unwrap();
    assert_eq!(u.name(), "123e4567-e89b-42d3-a456-426614174000.txt");
    let u = Upload::begin("../../etc/cron.d/evil.txt", 10).unwrap();
    assert!(!u.name().contains('/'));
    assert!(!u.name().contains(".."));
    assert!(u.name().ends_with(".txt"));
    assert_eq!(u.name().chars().count(), 36 + 4);
}

#[test]
fn disallowed_extension_is_refused_before_anything_is_stored() {
    assert_eq!(
        Upload::begin_with_id("run.exe", ID, 10).unwrap_err(),
        Rejection::ExtensionNotAllowed("exe".to_string())
    );
    assert_eq!(
        Upload::begin("README", 10).unwrap_err(),
        Rejection::ExtensionNotAllowed("bin".to_string())
    );
    assert_eq!(
        Upload::begin("photo.png.php", 10).unwrap_err(),
        Rejection::ExtensionNotAllowed("php".to_string())
    );
    assert_eq!(
        accept_whole("run.exe", 0, 10).unwrap_err(),
        Rejection::ExtensionNotAllowed("exe".to_string())
    );
}

#[test]
fn extension_is_judged_before_the_size() {
    assert_eq!(
        accept_whole_with_id("run.exe", ID, 11, 10).unwrap_err(),
        Rejection::ExtensionNotAllowed("exe".to_string())
    );
}

#[test]
fn exactly_the_limit_is_taken() {
    let mut u = Upload::begin_with_id("a.bin.zip", ID, 10).unwrap();
    assert_eq!(u.accept_chunk(4), Ok(()));
    assert_eq!(u.written(), 4);
    assert_eq!(u.accept_chunk(0), Ok(()));
    assert_eq!(u.accept_chunk(6), Ok(()));
    assert_eq!(u.written(), 10);
    assert_eq!(u.finish().generated_name, format!("{}.zip", ID));
    let f = accept_whole_with_id("a.zip", ID, 10, 10).unwrap();
    assert_eq!(f.generated_name, format!("{}.zip", ID));
    assert!(accept_whole("a.zip", MAX_FILE_SIZE, MAX_FILE_SIZE).is_ok());
}

#[test]
fn one_byte_more_is_refused() {
    let mut u = Upload::begin_with_id("a.zip", ID, 10).unwrap();
    assert_eq!(u.accept_chunk(10), Ok(()));
    assert_eq!(u.accept_chunk(1), Err(Rejection::TooLarge));
    assert_eq!(u.written(), 10);
    let mut u = Upload::begin_with_id("a.zip", ID, 10).unwrap();
    assert_eq!(u.accept_chunk(11), Err(Rejection::TooLarge));
    assert_eq!(u.written(), 0);
    assert_eq!(accept_whole_with_id("a.zip", ID, 11, 10).unwrap_err(), Rejection::TooLarge);
    assert_eq!(
        accept_whole("a.zip", MAX_FILE_SIZE + 1, MAX_FILE_SIZE).unwrap_err(),
        Rejection::TooLarge
    );
}

#[test]
fn sizes_near_the_machine_limit() {
    let mut u = Upload::begin_with_id("a.zip", ID, usize::MAX).unwrap();
    assert_eq!(u.accept_chunk(usize::MAX - 1), Ok(()));
    assert_eq!(u.accept_chunk(2), Err(Rejection::TooLarge));
    assert_eq!(u.accept_chunk(1), Ok(()));
    assert_eq!(u.written(), usize::MAX);
    assert_eq!(u.accept_chunk(usize::MAX), Err(Rejection::TooLarge));
    let mut u = Upload::begin_with_id("a.zip", ID, 0).unwrap();
    assert_eq!(u.accept_chunk(0), Ok(()));
    assert_eq!(u.accept_chunk(1), Err(Rejection::TooLarge));
}

#[test]
fn many_chunks_sum_up() {
    let mut u = Upload::begin("movie.mp4", 1000).unwrap();
    for _ in 0..100 {
        assert_eq!(u.accept_chunk(10), Ok(()));
    }
    assert_eq!(u.written(), 1000);
    assert_eq!(u.accept_chunk(1), Err(Rejection::TooLarge));
}
