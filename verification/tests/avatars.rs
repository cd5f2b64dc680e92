use jeopardy::avatar::AvatarManager;
use jeopardy::errors::Error;

fn manager(limit: usize) -> AvatarManager {
    AvatarManager::new("static/avatars".to_string(), "avatars".to_string(), limit).unwrap()
}

const EMPTY_DIGEST: &str = "e3b0c44298fc1c149afbf4c8996fb92427ae41e4649b934ca495991b7852b855";
const ABC_DIGEST: &str = "ba7816bf8f01cfea414140de5dae2223b00361a396177a9cb410ff61f20015ad";

#[test]
fn manager_keeps_what_it_is_given() {
    let m = manager(32 * 1024);
    assert_eq!(m.directory, "static/avatars");
    assert_eq!(m.prefix, "avatars");
    assert_eq!(m.max_image_size, 32768);
}

#[test]
fn image_is_named_after_the_digest_of_its_bytes() {
    let saved = manager(1024).save_avatar("data:image/png;base64,YWJj").unwrap();
    assert_eq!(saved.bytes, b"abc");
    assert_eq!(saved.file_name, format!("{}.png", ABC_DIGEST));
    assert_eq!(saved.url, format!("avatars/{}.png", ABC_DIGEST));
    let jpeg = manager(1024).save_avatar("data:image/jpeg;base64,YWJj").unwrap();
    assert_eq!(jpeg.file_name, format!("{}.jpg", ABC_DIGEST));
    assert_eq!(jpeg.url, format!("avatars/{}.jpg", ABC_DIGEST));
}

#[test]
fn body_without_base64_is_taken_as_it_stands() {
    let saved = manager(1024).save_avatar("data:image/png,abc").unwrap();
    assert_eq!(saved.bytes, b"abc");
    let empty = manager(1024).save_avatar("data:image/png;base64,").unwrap();
    assert!(empty.bytes.is_empty());
    assert_eq!(empty.file_name, format!("{}.png", EMPTY_DIGEST));
}

#[test]
fn text_that_is_no_data_url_is_refused() {
    assert_eq!(manager(1024).save_avatar("").unwrap_err(), Error::DataUrlFormat);
    assert_eq!(manager(1024).save_avatar("http://x/y.png").unwrap_err(), Error::DataUrlFormat);
    assert_eq!(manager(1024).save_avatar("data:image/png;base64").unwrap_err(), Error::DataUrlFormat);
}

#[test]
fn other_media_types_are_refused() {
    assert_eq!(manager(1024).save_avatar("data:text/plain,abc").unwrap_err(), Error::DataUrlType);
    assert_eq!(manager(1024).save_avatar("data:image/gif;base64,YWJj").unwrap_err(), Error::DataUrlType);
    assert_eq!(manager(1024).save_avatar("data:,abc").unwrap_err(), Error::DataUrlType);
    assert_eq!(AvatarManager::extension_for("image", "jpeg"), Ok("jpg"));
    assert_eq!(AvatarManager::extension_for("image", "png"), Ok("png"));
    assert_eq!(AvatarManager::extension_for("image", "jpg"), Err(Error::DataUrlType));
    assert_eq!(AvatarManager::extension_for("video", "png"), Err(Error::DataUrlType));
}

#[test]
fn body_that_cannot_be_decoded_is_refused() {
    assert_eq!(
        manager(1024).save_avatar("data:image/png;base64,@@@").unwrap_err(),
        Error::DataUrlDecode
    );
    assert_eq!(manager(1024).check_body(None), Err(Error::DataUrlDecode));
}

#[test]
fn image_larger_than_the_limit_is_refused() {
    assert_eq!(manager(2).save_avatar("data:image/png;base64,YWJj").unwrap_err(), Error::DataUrlDecode);
    assert_eq!(manager(0).save_avatar("data:image/png,a").unwrap_err(), Error::DataUrlDecode);
    assert_eq!(manager(2).check_body(Some(vec![1, 2, 3])), Err(Error::DataUrlDecode));
}

#[test]
fn image_as_large_as_the_limit_is_accepted() {
    let saved = manager(3).save_avatar("data:image/png;base64,YWJj").unwrap();
    assert_eq!(saved.bytes, b"abc");
    assert_eq!(saved.url, format!("avatars/{}.png", ABC_DIGEST));
    assert_eq!(saved.url, manager(3).save_avatar("data:image/png;base64,YWJj").unwrap().url);
    assert!(manager(4).save_avatar("data:image/png;base64,YWJj").is_ok());
    assert!(manager(0).save_avatar("data:image/png,").is_ok());
    assert_eq!(manager(3).check_body(Some(vec![1, 2, 3])), Ok(vec![1, 2, 3]));
    assert_eq!(manager(3).check_body(Some(vec![1, 2])), Ok(vec![1, 2]));
}

#[test]
fn avatar_is_named_from_its_parts() {
    let avatar = manager(10).name_avatar(vec![9], "digest", "ext");
    assert_eq!(avatar.file_name, "digest.ext");
    assert_eq!(avatar.url, "avatars/digest.ext");
    assert_eq!(avatar.bytes, vec![9]);
}
