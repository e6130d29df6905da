//! The cloud regions the metrics store can live in, each with its
//! canonical name.

use vstd::prelude::*;
use crate::strutil::str_eq;

verus! {

/// A cloud region, named as its API expects it.
#[derive(Debug, Clone, Copy, PartialEq, Eq, Structural)]
pub enum AwsRegion {
    UsEast1,
    UsEast2,
    UsWest1,
    UsWest2,
    AfSouth1,
    ApEast1,
    ApEast2,
    ApSouth1,
    ApSouth2,
    ApNortheast1,
    ApNortheast2,
    ApNortheast3,
    ApSoutheast1,
    ApSoutheast2,
    ApSoutheast3,
    ApSoutheast4,
    ApSoutheast5,
    ApSoutheast6,
    ApSoutheast7,
    CaCentral1,
    CaWest1,
    EuCentral1,
    EuCentral2,
    EuWest1,
    EuWest2,
    EuWest3,
    EuNorth1,
    EuSouth1,
    EuSouth2,
    IlCentral1,
    MxCentral1,
    MeSouth1,
    MeCentral1,
    SaEast1,
    UsGovEast1,
    UsGovWest1,
}

/// The canonical name of each region.
pub open spec fn region_name(r: AwsRegion) -> Seq<char> {
    match r {
        AwsRegion::UsEast1 => "us-east-1"@,
        AwsRegion::UsEast2 => "us-east-2"@,
        AwsRegion::UsWest1 => "us-west-1"@,
        AwsRegion::UsWest2 => "us-west-2"@,
        AwsRegion::AfSouth1 => "af-south-1"@,
        AwsRegion::ApEast1 => "ap-east-1"@,
        AwsRegion::ApEast2 => "ap-east-2"@,
        AwsRegion::ApSouth1 => "ap-south-1"@,
        AwsRegion::ApSouth2 => "ap-south-2"@,
        AwsRegion::ApNortheast1 => "ap-northeast-1"@,
        AwsRegion::ApNortheast2 => "ap-northeast-2"@,
        AwsRegion::ApNortheast3 => "ap-northeast-3"@,
        AwsRegion::ApSoutheast1 => "ap-southeast-1"@,
        AwsRegion::ApSoutheast2 => "ap-southeast-2"@,
        AwsRegion::ApSoutheast3 => "ap-southeast-3"@,
        AwsRegion::ApSoutheast4 => "ap-southeast-4"@,
        AwsRegion::ApSoutheast5 => "ap-southeast-5"@,
        AwsRegion::ApSoutheast6 => "ap-southeast-6"@,
        AwsRegion::ApSoutheast7 => "ap-southeast-7"@,
        AwsRegion::CaCentral1 => "ca-central-1"@,
        AwsRegion::CaWest1 => "ca-west-1"@,
        AwsRegion::EuCentral1 => "eu-central-1"@,
        AwsRegion::EuCentral2 => "eu-central-2"@,
        AwsRegion::EuWest1 => "eu-west-1"@,
        AwsRegion::EuWest2 => "eu-west-2"@,
        AwsRegion::EuWest3 => "eu-west-3"@,
        AwsRegion::EuNorth1 => "eu-north-1"@,
        AwsRegion::EuSouth1 => "eu-south-1"@,
        AwsRegion::EuSouth2 => "eu-south-2"@,
        AwsRegion::IlCentral1 => "il-central-1"@,
        AwsRegion::MxCentral1 => "mx-central-1"@,
        AwsRegion::MeSouth1 => "me-south-1"@,
        AwsRegion::MeCentral1 => "me-central-1"@,
        AwsRegion::SaEast1 => "sa-east-1"@,
        AwsRegion::UsGovEast1 => "us-gov-east-1"@,
        AwsRegion::UsGovWest1 => "us-gov-west-1"@,
    }
}

impl AwsRegion {
    /// The canonical name of this region.
    pub fn as_str(&self) -> (r: &'static str)
        ensures
            r@ == region_name(*self),
    {
        match self {
            AwsRegion::UsEast1 => "us-east-1",
            AwsRegion::UsEast2 => "us-east-2",
            AwsRegion::UsWest1 => "us-west-1",
            AwsRegion::UsWest2 => "us-west-2",
            AwsRegion::AfSouth1 => "af-south-1",
            AwsRegion::ApEast1 => "ap-east-1",
            AwsRegion::ApEast2 => "ap-east-2",
            AwsRegion::ApSouth1 => "ap-south-1",
            AwsRegion::ApSouth2 => "ap-south-2",
            AwsRegion::ApNortheast1 => "ap-northeast-1",
            AwsRegion::ApNortheast2 => "ap-northeast-2",
            AwsRegion::ApNortheast3 => "ap-northeast-3",
            AwsRegion::ApSoutheast1 => "ap-southeast-1",
            AwsRegion::ApSoutheast2 => "ap-southeast-2",
            AwsRegion::ApSoutheast3 => "ap-southeast-3",
            AwsRegion::ApSoutheast4 => "ap-southeast-4",
            AwsRegion::ApSoutheast5 => "ap-southeast-5",
            AwsRegion::ApSoutheast6 => "ap-southeast-6",
            AwsRegion::ApSoutheast7 => "ap-southeast-7",
            AwsRegion::CaCentral1 => "ca-central-1",
            AwsRegion::CaWest1 => "ca-west-1",
            AwsRegion::EuCentral1 => "eu-central-1",
            AwsRegion::EuCentral2 => "eu-central-2",
            AwsRegion::EuWest1 => "eu-west-1",
            AwsRegion::EuWest2 => "eu-west-2",
            AwsRegion::EuWest3 => "eu-west-3",
            AwsRegion::EuNorth1 => "eu-north-1",
            AwsRegion::EuSouth1 => "eu-south-1",
            AwsRegion::EuSouth2 => "eu-south-2",
            AwsRegion::IlCentral1 => "il-central-1",
            AwsRegion::MxCentral1 => "mx-central-1",
            AwsRegion::MeSouth1 => "me-south-1",
            AwsRegion::MeCentral1 => "me-central-1",
            AwsRegion::SaEast1 => "sa-east-1",
            AwsRegion::UsGovEast1 => "us-gov-east-1",
            AwsRegion::UsGovWest1 => "us-gov-west-1",
        }
    }

    /// Parses a region from its canonical name; any other text is
    /// rejected with a message naming it.
    pub fn from_str(s: &str) -> (r: Result<AwsRegion, String>)
        ensures
            r matches Ok(reg) ==> s@ == region_name(reg),
            r matches Err(m) ==> (forall|reg: AwsRegion| s@ != region_name(reg)) && m@
                == "Invalid AWS region: '"@ + s@
                + "'. See https://docs.aws.amazon.com/general/latest/gr/rande.html for valid regions"@,
    {
        if str_eq(s, "us-east-1") {
            Ok(AwsRegion::UsEast1)
        } else if str_eq(s, "us-east-2") {
            Ok(AwsRegion::UsEast2)
        } else if str_eq(s, "us-west-1") {
            Ok(AwsRegion::UsWest1)
        } else if str_eq(s, "us-west-2") {
            Ok(AwsRegion::UsWest2)
        } else if str_eq(s, "af-south-1") {
            Ok(AwsRegion::AfSouth1)
        } else if str_eq(s, "ap-east-1") {
            Ok(AwsRegion::ApEast1)
        } else if str_eq(s, "ap-east-2") {
            Ok(AwsRegion::ApEast2)
        } else if str_eq(s, "ap-south-1") {
            Ok(AwsRegion::ApSouth1)
        } else if str_eq(s, "ap-south-2") {
            Ok(AwsRegion::ApSouth2)
        } else if str_eq(s, "ap-northeast-1") {
            Ok(AwsRegion::ApNortheast1)
        } else if str_eq(s, "ap-northeast-2") {
            Ok(AwsRegion::ApNortheast2)
        } else if str_eq(s, "ap-northeast-3") {
            Ok(AwsRegion::ApNortheast3)
        } else if str_eq(s, "ap-southeast-1") {
            Ok(AwsRegion::ApSoutheast1)
        } else if str_eq(s, "ap-southeast-2") {
            Ok(AwsRegion::ApSoutheast2)
        } else if str_eq(s, "ap-southeast-3") {
            Ok(AwsRegion::ApSoutheast3)
        } else if str_eq(s, "ap-southeast-4") {
            Ok(AwsRegion::ApSoutheast4)
        } else if str_eq(s, "ap-southeast-5") {
            Ok(AwsRegion::ApSoutheast5)
        } else if str_eq(s, "ap-southeast-6") {
            Ok(AwsRegion::ApSoutheast6)
        } else if str_eq(s, "ap-southeast-7") {
            Ok(AwsRegion::ApSoutheast7)
        } else if str_eq(s, "ca-central-1") {
            Ok(AwsRegion::CaCentral1)
        } else if str_eq(s, "ca-west-1") {
            Ok(AwsRegion::CaWest1)
        } else if str_eq(s, "eu-central-1") {
            Ok(AwsRegion::EuCentral1)
        } else if str_eq(s, "eu-central-2") {
            Ok(AwsRegion::EuCentral2)
        } else if str_eq(s, "eu-west-1") {
            Ok(AwsRegion::EuWest1)
        } else if str_eq(s, "eu-west-2") {
            Ok(AwsRegion::EuWest2)
        } else if str_eq(s, "eu-west-3") {
            Ok(AwsRegion::EuWest3)
        } else if str_eq(s, "eu-north-1") {
            Ok(AwsRegion::EuNorth1)
        } else if str_eq(s, "eu-south-1") {
            Ok(AwsRegion::EuSouth1)
        } else if str_eq(s, "eu-south-2") {
            Ok(AwsRegion::EuSouth2)
        } else if str_eq(s, "il-central-1") {
            Ok(AwsRegion::IlCentral1)
        } else if str_eq(s, "mx-central-1") {
            Ok(AwsRegion::MxCentral1)
        } else if str_eq(s, "me-south-1") {
            Ok(AwsRegion::MeSouth1)
        } else if str_eq(s, "me-central-1") {
            Ok(AwsRegion::MeCentral1)
        } else if str_eq(s, "sa-east-1") {
            Ok(AwsRegion::SaEast1)
        } else if str_eq(s, "us-gov-east-1") {
            Ok(AwsRegion::UsGovEast1)
        } else if str_eq(s, "us-gov-west-1") {
            Ok(AwsRegion::UsGovWest1)
        } else {
            let mut m = String::from_str("Invalid AWS region: '");
            m.append(s);
            m.append("'. See https://docs.aws.amazon.com/general/latest/gr/rande.html for valid regions");
            proof {
                assert forall|reg: AwsRegion| s@ != region_name(reg) by {}
            }
            Err(m)
        }
    }
}

} // verus!
