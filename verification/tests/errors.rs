use image_search::{DownloadError, Error};

#[test]
fn error_messages() {
    assert_eq!(
        Error::Parse.message(),
        "Unable to parse images from json. Google may have changed the way their data is stored"
    );
    assert_eq!(
        Error::Dir("permission denied".to_string()).message(),
        "Unable to find or create: permission denied"
    );
    assert_eq!(
        Error::Network("connection reset".to_string()).message(),
        "GET request failed: connection reset"
    );
    assert_eq!(Error::Dir(String::new()).message(), "Unable to find or create: ");
}

#[test]
fn error_descriptions() {
    assert_eq!(Error::Parse.description(), "Unable to parse images from json");
    assert_eq!(
        Error::Dir("x".to_string()).description(),
        "Error when finding or creating directory"
    );
    assert_eq!(Error::Network("x".to_string()).description(), "Failed to make GET request");
}

#[test]
fn download_error_messages() {
    assert_eq!(DownloadError::Overflow.message(), "Ran out of possible images");
    assert_eq!(DownloadError::Extension.message(), "Unable to determine file extension");
    assert_eq!(DownloadError::Timeout.message(), "GET request timed out");
    assert_eq!(
        DownloadError::Fs("disk full".to_string()).message(),
        "Problem when creating or writing to file: disk full"
    );
    assert_eq!(
        DownloadError::Network("refused".to_string()).message(),
        "Unable to fetch image: refused"
    );
}

#[test]
fn download_error_descriptions() {
    assert_eq!(DownloadError::Overflow.description(), "Ran out of possible images");
    assert_eq!(DownloadError::Extension.description(), "File type not known or not an image");
    assert_eq!(DownloadError::Timeout.description(), "GET request timed out");
    assert_eq!(
        DownloadError::Fs("x".to_string()).description(),
        "Error occured creating or writing to file"
    );
    assert_eq!(
        DownloadError::Network("x".to_string()).description(),
        "Error when making GET request to fetch image"
    );
}
