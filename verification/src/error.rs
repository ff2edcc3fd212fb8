//! The daemon's errors. The payloads that come from the operating system or
//! from the outside crates are carried through untouched.
use std::num::ParseIntError;
use std::num::TryFromIntError;
use std::path::PathBuf;
use vstd::prelude::*;

verus! {

#[verifier::external_type_specification]
#[verifier::external_body]
pub struct ExIoError(std::io::Error);

#[verifier::external_type_specification]
#[verifier::external_body]
pub struct ExPathBuf(PathBuf);

#[verifier::external_type_specification]
#[verifier::external_body]
pub struct ExPatternError(glob::PatternError);

#[verifier::external_type_specification]
#[verifier::external_body]
pub struct ExGlobError(glob::GlobError);

#[verifier::external_type_specification]
#[verifier::external_body]
pub struct ExIniParseError(ini::ParseError);

#[derive(Debug)]
pub enum Error {
    NotRoot,
    NoFan,
    NoCpu,
    TempRead(std::io::Error),
    TempSeek(std::io::Error),
    TempParse(ParseIntError),
    TempCast(TryFromIntError),
    MinSpeedRead(std::io::Error),
    MinSpeedParse(ParseIntError),
    MaxSpeedRead(std::io::Error),
    MaxSpeedParse(ParseIntError),
    ActualSpeedRead(std::io::Error),
    ActualSpeedParse(ParseIntError),
    LockWrite(std::io::Error),
    AlreadyRunning,
    Config(PathBuf, ConfigError),
    Fan(PathBuf, FanError),
    Signal(std::io::Error),
    GlobPattern(glob::PatternError),
    Glob(glob::GlobError),
}

#[derive(Debug)]
pub enum ConfigError {
    Read(std::io::Error),
    Create(std::io::Error),
    Parse(ini::ParseError),
    MissingFan(usize),
    MissingValue(&'static str),
    InvalidValue(&'static str),
    InvalidRange(&'static str),
}

#[derive(Debug)]
pub enum FanError {
    Path,
    Open(std::io::Error),
    Write(std::io::Error),
    Search(std::io::Error),
}

} // verus!
