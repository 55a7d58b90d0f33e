use daas::storage::s3::S3BucketMngr;
use rusoto_core::Region;

#[test]
fn test_from_arn() {
    let bckt = S3BucketMngr::from_arn(Region::UsEast1, "arn:aws:s3:::iapp-daas-test-bucket".to_string());

    assert_eq!(bckt.bucket, "iapp-daas-test-bucket".to_string());
    assert_eq!(bckt.arn, "arn:aws:s3:::iapp-daas-test-bucket".to_string());
    assert_eq!(bckt.region, Region::UsEast1);
}

#[test]
fn test_new_s3bucketmngr() {
    let bckt = S3BucketMngr::new(Region::UsEast1, "iapp-daas-test-bucket".to_string());

    assert_eq!(bckt.bucket, "iapp-daas-test-bucket".to_string());
    assert_eq!(bckt.arn, "arn:aws:s3:::iapp-daas-test-bucket".to_string());
    assert_eq!(bckt.region, Region::UsEast1);
}

#[test]
fn parse_arn_marks_empty_parts() {
    let parts = S3BucketMngr::parse_arn("arn:aws:s3:::bucket".to_string());
    assert_eq!(
        parts,
        vec![Some("arn".to_string()), Some("aws".to_string()), Some("s3".to_string()), None, None, Some("bucket".to_string())]
    );
}
