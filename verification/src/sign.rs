//! Closed enumerations used across the signing service: the signing method,
//! the file format a key signs, and the algorithm family of a key.
//!
//! Each enumeration carries its canonical storage string, stated as a spec
//! function and produced by `fmt`; `SignType` can also be parsed back.

use vstd::prelude::*;

use crate::errors::Error;

verus! {

#[derive(Clone, Copy, Debug, PartialEq, Eq, Hash, Structural)]
pub enum SignType {
    CMS,
    Authenticode,
}

#[derive(Clone, Copy, Debug, PartialEq, Eq, Hash, Structural)]
pub enum FileType {
    RPM,
    CheckSum,
    KernelModule,
    EfiImage,
}

#[derive(Clone, Copy, Debug, PartialEq, Eq, Structural)]
pub enum KeyType {
    PGP,
    X509,
}

impl SignType {
    /// The canonical string of the variant.
    pub open spec fn spec_str(self) -> Seq<char> {
        match self {
            SignType::CMS => "cms"@,
            SignType::Authenticode => "authenticode"@,
        }
    }

    pub fn fmt(&self) -> (r: String)
        ensures
            r@ == self.spec_str(),
    {
        match self {
            SignType::CMS => "cms".to_owned(),
            SignType::Authenticode => "authenticode".to_owned(),
        }
    }

    pub fn from_str(s: &str) -> (r: Result<SignType, Error>)
        ensures
            s@ == "cms"@ <==> r == Ok::<SignType, Error>(SignType::CMS),
            s@ == "authenticode"@ <==> r == Ok::<SignType, Error>(SignType::Authenticode),
            r is Err ==> (r matches Err(e) && e is ParameterError),
    {
        proof {
            reveal_strlit("cms");
            reveal_strlit("authenticode");
        }
        let t = s.to_owned();
        if t == "cms".to_owned() {
            assert("cms"@.len() == 3 && "authenticode"@.len() == 12);
            assert(s@ != "authenticode"@);
            Ok(SignType::CMS)
        } else if t == "authenticode".to_owned() {
            Ok(SignType::Authenticode)
        } else {
            Err(Error::ParameterError("Invalid sign_type param".to_owned()))
        }
    }
}

impl FileType {
    /// The canonical string of the variant.
    pub open spec fn spec_str(self) -> Seq<char> {
        match self {
            FileType::RPM => "rpm"@,
            FileType::CheckSum => "checksum"@,
            FileType::KernelModule => "ko"@,
            FileType::EfiImage => "efi"@,
        }
    }

    pub fn fmt(&self) -> (r: String)
        ensures
            r@ == self.spec_str(),
    {
        match self {
            FileType::RPM => "rpm".to_owned(),
            FileType::CheckSum => "checksum".to_owned(),
            FileType::KernelModule => "ko".to_owned(),
            FileType::EfiImage => "efi".to_owned(),
        }
    }
}

impl KeyType {
    /// The canonical string of the variant.
    pub open spec fn spec_str(self) -> Seq<char> {
        match self {
            KeyType::PGP => "pgp"@,
            KeyType::X509 => "x509"@,
        }
    }

    pub fn fmt(&self) -> (r: String)
        ensures
            r@ == self.spec_str(),
    {
        match self {
            KeyType::PGP => "pgp".to_owned(),
            KeyType::X509 => "x509".to_owned(),
        }
    }

    /// Whether `s` is the canonical string of this variant.
    pub fn matches_str(&self, s: &String) -> (r: bool)
        ensures
            r == (self.spec_str() == s@),
    {
        match self {
            KeyType::PGP => *s == "pgp".to_owned(),
            KeyType::X509 => *s == "x509".to_owned(),
        }
    }
}

} // verus!
