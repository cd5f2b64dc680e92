use vstd::prelude::*;

verus! {

/// Every failure the engine reports to a caller.
#[derive(Debug, Clone, Copy, PartialEq, Eq, Structural)]
pub enum Error {
    DataUrlDecode,
    DataUrlFormat,
    DataUrlType,
    LockTimeout,
    UnknownGame,
    BadArgument,
    InvalidStateForOperation,
    InvalidSquareStateTransition,
    DailyDoubleWagerOutOfRange,
    FinalJeopardyWagerOutOfRange,
    NoSuchPlayer,
    NotAllowed,
    InvalidSquare,
    TooManyDailyDoubles,
    AvatarTooBig,
}


impl Error {
    /// The failure code that clients are sent.
    pub fn code(&self) -> (code: &'static str)
        ensures
            code@ == match *self {
                Error::DataUrlDecode => "jpdy.data_url_decode"@,
                Error::DataUrlFormat => "jpdy.data_url_format"@,
                Error::DataUrlType => "jpdy.avatar_data_type"@,
                Error::LockTimeout => "jpdy.lock_timeout"@,
                Error::UnknownGame => "jpdy.unknown_error"@,
                Error::BadArgument => "jpdy.bad_argument"@,
                Error::InvalidStateForOperation => "jpdy.invalid_game_state"@,
                Error::InvalidSquareStateTransition => "jpdy.invalid_square_state_transition"@,
                Error::DailyDoubleWagerOutOfRange => "jpdy.wager_out_of_range"@,
                Error::FinalJeopardyWagerOutOfRange => "jpdy.wager_out_of_range"@,
                Error::NoSuchPlayer => "jpdy.no_such_player"@,
                Error::NotAllowed => "jpdy.not_allowed"@,
                Error::InvalidSquare => "jpdy.invalid_square"@,
                Error::TooManyDailyDoubles => "jpdy.too_many_daily_doubles"@,
                Error::AvatarTooBig => "jpdy.avatar_too_big"@,
            },
    {
        match self {
            Error::DataUrlDecode => "jpdy.data_url_decode",
            Error::DataUrlFormat => "jpdy.data_url_format",
            Error::DataUrlType => "jpdy.avatar_data_type",
            Error::LockTimeout => "jpdy.lock_timeout",
            Error::UnknownGame => "jpdy.unknown_error",
            Error::BadArgument => "jpdy.bad_argument",
            Error::InvalidStateForOperation => "jpdy.invalid_game_state",
            Error::InvalidSquareStateTransition => "jpdy.invalid_square_state_transition",
            Error::DailyDoubleWagerOutOfRange => "jpdy.wager_out_of_range",
            Error::FinalJeopardyWagerOutOfRange => "jpdy.wager_out_of_range",
            Error::NoSuchPlayer => "jpdy.no_such_player",
            Error::NotAllowed => "jpdy.not_allowed",
            Error::InvalidSquare => "jpdy.invalid_square",
            Error::TooManyDailyDoubles => "jpdy.too_many_daily_doubles",
            Error::AvatarTooBig => "jpdy.avatar_too_big",
        }
    }
}

} // verus!
