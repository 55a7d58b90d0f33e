//! The bucket in long-term object storage that provisioned records go to.
use vstd::prelude::*;
use crate::text::{split_on, split_fields};

verus! {

/// Declares `rusoto_core::Region`, which a bucket carries as is.
#[verifier::external_type_specification]
#[verifier::external_body]
pub struct ExRegion(rusoto_core::Region);

/// The ARN of a bucket.
pub open spec fn arn_of(bucket: Seq<char>) -> Seq<char> {
    "arn:aws:s3:::"@ + bucket
}

/// The parts of an ARN between colons; an empty part is absent.
pub open spec fn arn_parts(arn: Seq<char>) -> Seq<Option<Seq<char>>> {
    split_on(arn, ':').map_values(|p: Seq<char>| if p.len() == 0 { None } else { Some(p) })
}

/// A bucket, its region and its ARN.
#[derive(Debug)]
pub struct S3BucketMngr {
    /// The region of the bucket.
    pub region: rusoto_core::Region,
    /// The name of the bucket.
    pub bucket: String,
    /// The ARN of the bucket.
    pub arn: String,
}

impl S3BucketMngr {
    /// The bucket named `bucket_name` in `region`.
    pub fn new(region: rusoto_core::Region, bucket_name: String) -> (r: S3BucketMngr)
        ensures
            r.region == region,
            r.bucket == bucket_name,
            r.arn@ == arn_of(bucket_name@),
    {
        let mut arn = String::from_str("arn:aws:s3:::");
        arn.append(bucket_name.as_str());
        S3BucketMngr { region, bucket: bucket_name, arn }
    }

    /// The bucket that an ARN names: its sixth part.
    pub fn from_arn(region: rusoto_core::Region, bucket_arn: String) -> (r: S3BucketMngr)
        requires
            arn_parts(bucket_arn@).len() > 5,
            arn_parts(bucket_arn@)[5] is Some,
        ensures
            r.region == region,
            Some(r.bucket@) == arn_parts(bucket_arn@)[5],
            r.arn == bucket_arn,
    {
        let parts = S3BucketMngr::parse_arn(bucket_arn.clone());
        let bucket = match &parts[5] {
            Some(b) => b.clone(),
            None => String::new(),
        };
        S3BucketMngr { region, bucket, arn: bucket_arn }
    }

    /// Splits an ARN at its colons; an empty part is absent.
    pub fn parse_arn(arn: String) -> (r: Vec<Option<String>>)
        ensures
            r@.len() == arn_parts(arn@).len(),
            forall|i: int|
                0 <= i < r@.len() ==> (match #[trigger] r@[i] {
                    Some(p) => Some(p@),
                    None => None,
                }) == arn_parts(arn@)[i],
    {
        let fields = split_fields(arn.as_str(), ':');
        let mut parts: Vec<Option<String>> = Vec::new();
        let mut i: usize = 0;
        while i < fields.len()
            invariant
                i <= fields@.len(),
                fields@.map_values(|f: String| f@) == split_on(arn@, ':'),
                parts@.len() == i,
                forall|j: int|
                    0 <= j < i ==> (match #[trigger] parts@[j] {
                        Some(p) => Some(p@),
                        None => None,
                    }) == arn_parts(arn@)[j],
            decreases fields@.len() - i,
        {
            let f = &fields[i];
            proof {
                assert(split_on(arn@, ':')[i as int] == f@);
            }
            if f.unicode_len() == 0 {
                parts.push(None);
            } else {
                parts.push(Some(f.clone()));
            }
            i = i + 1;
        }
        parts
    }
}

} // verus!
