//! The packed MS-DOS date and time that headers carry.

use vstd::prelude::*;
use crate::error::IoError;
use crate::stream::ByteReader;
use crate::stream::le_u16;
use crate::stream::u16_bytes;
use crate::stream::write_le_u16;

verus! {

/// The first year that the date word can express.
pub const EPOCH_YEAR: usize = 1980;

/// How far the hour is shifted up in the time word.
pub const HOUR_SHIFT: u16 = 11;

/// Mask of the 5-bit hour, once it is shifted down.
pub const HOUR_MASK: u16 = 0b11111;

/// How far the minute is shifted up in the time word.
pub const MINUTE_SHIFT: u16 = 5;

/// Mask of the 6-bit minute, once it is shifted down.
pub const MINUTE_MASK: u16 = 0b111111;

/// Mask of the halved second, which fills the low 5 bits of the time word.
pub const HALF_SECOND_MASK: u16 = 0b11111;

/// Mask of a second before it is halved.
pub const SECOND_MASK: u16 = 0b111111;

/// How far the year offset is shifted up in the date word.
pub const YEAR_SHIFT: u16 = 9;

/// Mask of the 7-bit year offset, once it is shifted down.
pub const YEAR_MASK: u16 = 0b1111111;

/// How far the month is shifted up in the date word.
pub const MONTH_SHIFT: u16 = 5;

/// Mask of the 4-bit month, once it is shifted down.
pub const MONTH_MASK: u16 = 0b1111;

/// Mask of the day, which fills the low 5 bits of the date word.
pub const DAY_MASK: u16 = 0b11111;

/// A date and a time of day, packed into two 16-bit words.
///
/// The time word holds the hour in its top 5 bits, the minute in the next 6
/// and half the second in the low 5; the date word holds the year since
/// 1980 in its top 7 bits, the month in the next 4 and the day in the low 5.
#[derive(Clone, Copy, Debug, PartialEq, Eq, Structural)]
pub struct MsdosDateTime {
    time: u16,
    date: u16,
}

impl MsdosDateTime {
    /// The time word.
    pub closed spec fn time_word(self) -> u16 {
        self.time
    }

    /// The date word.
    pub closed spec fn date_word(self) -> u16 {
        self.date
    }

    /// The value with the given time word and date word.
    pub closed spec fn from_words(time: u16, date: u16) -> MsdosDateTime {
        MsdosDateTime { time, date }
    }

    /// A value is its two words and nothing more.
    pub proof fn lemma_words(time: u16, date: u16)
        ensures
            Self::from_words(time, date).time_word() == time,
            Self::from_words(time, date).date_word() == date,
    {
    }

    /// A value is its two words and nothing more.
    pub proof fn lemma_from_own_words(self)
        ensures
            Self::from_words(self.time_word(), self.date_word()) == self,
    {
    }

    /// The time word that holds `hour`, `minute` and `second`, each reduced
    /// to the width of its field and the second rounded down to an even one.
    pub open spec fn pack_time(hour: int, minute: int, second: int) -> int {
        (hour % 32) * 2048 + (minute % 64) * 32 + (second % 64) / 2
    }

    /// The date word that holds `year`, `month` and `day`, each reduced to
    /// the width of its field.
    pub open spec fn pack_date(year: int, month: int, day: int) -> int {
        ((year - 1980) % 128) * 512 + (month % 16) * 32 + day % 32
    }

    /// The year: 1980 and the top 7 bits of the date word.
    pub open spec fn spec_year(self) -> int {
        self.date_word() as int / 512 + 1980
    }

    /// The month: bits 5 to 8 of the date word.
    pub open spec fn spec_month(self) -> int {
        self.date_word() as int / 32 % 16
    }

    /// The day: the low 5 bits of the date word.
    pub open spec fn spec_day(self) -> int {
        self.date_word() as int % 32
    }

    /// The hour: the top 5 bits of the time word.
    pub open spec fn spec_hour(self) -> int {
        self.time_word() as int / 2048
    }

    /// The minute: bits 5 to 10 of the time word.
    pub open spec fn spec_minute(self) -> int {
        self.time_word() as int / 32 % 64
    }

    /// The second: twice the low 5 bits of the time word.
    pub open spec fn spec_second(self) -> int {
        self.time_word() as int % 32 * 2
    }

    /// The four bytes that encode the value: the time word, then the date
    /// word, each little-endian.
    pub open spec fn encode(self) -> Seq<u8> {
        u16_bytes(self.time_word()) + u16_bytes(self.date_word())
    }

    /// The value that the four bytes at `at` encode.
    pub open spec fn decode(s: Seq<u8>, at: int) -> MsdosDateTime {
        Self::from_words(le_u16(s, at), le_u16(s, at + 2))
    }

    /// Packs a date and a time. A component that does not fit its field
    /// loses its high bits; an odd second loses its last bit.
    pub fn new(
        year: usize,
        month: usize,
        day: usize,
        hour: usize,
        minute: usize,
        second: usize,
    ) -> (r: MsdosDateTime)
        ensures
            r.time_word() == Self::pack_time(hour as int, minute as int, second as int),
            r.date_word() == Self::pack_date(year as int, month as int, day as int),
    {
        let year: usize = year.wrapping_sub(EPOCH_YEAR);
        let h: u16 = (hour & HOUR_MASK as usize) as u16;
        let mi: u16 = (minute & MINUTE_MASK as usize) as u16;
        let s: u16 = (second & SECOND_MASK as usize) as u16;
        let y: u16 = (year & YEAR_MASK as usize) as u16;
        let mo: u16 = (month & MONTH_MASK as usize) as u16;
        let d: u16 = (day & DAY_MASK as usize) as u16;
        proof {
            assert(hour & 0b11111 == hour % 32) by (bit_vector);
            assert(minute & 0b111111 == minute % 64) by (bit_vector);
            assert(second & 0b111111 == second % 64) by (bit_vector);
            assert(year & 0b1111111 == year % 128) by (bit_vector);
            assert(month & 0b1111 == month % 16) by (bit_vector);
            assert(day & 0b11111 == day % 32) by (bit_vector);
            assert((h << 11) | (mi << 5) | (s >> 1) == h * 2048 + mi * 32 + s / 2) by (bit_vector)
                requires
                    h < 32,
                    mi < 64,
                    s < 64,
            ;
            assert((y << 9) | (mo << 5) | d == y * 512 + mo * 32 + d) by (bit_vector)
                requires
                    y < 128,
                    mo < 16,
                    d < 32,
            ;
        }
        MsdosDateTime {
            time: (h << HOUR_SHIFT) | (mi << MINUTE_SHIFT) | (s >> 1),
            date: (y << YEAR_SHIFT) | (mo << MONTH_SHIFT) | d,
        }
    }

    /// The value whose two words are zero.
    pub fn zero() -> (r: MsdosDateTime)
        ensures
            r == Self::from_words(0, 0),
    {
        MsdosDateTime { time: 0, date: 0 }
    }

    /// The year, from 1980 to 2107.
    pub fn year(&self) -> (r: usize)
        ensures
            r == self.spec_year(),
            1980 <= r <= 2107,
    {
        let date: u16 = self.date;
        assert((date >> 9) & 0b1111111 == date / 512) by (bit_vector);
        ((self.date >> YEAR_SHIFT) & YEAR_MASK) as usize + EPOCH_YEAR
    }

    /// The month as it is stored, from 0 to 15.
    pub fn month(&self) -> (r: usize)
        ensures
            r == self.spec_month(),
            r < 16,
    {
        let date: u16 = self.date;
        assert((date >> 5) & 0b1111 == date / 32 % 16) by (bit_vector);
        ((self.date >> MONTH_SHIFT) & MONTH_MASK) as usize
    }

    /// The day as it is stored, from 0 to 31.
    pub fn day(&self) -> (r: usize)
        ensures
            r == self.spec_day(),
            r < 32,
    {
        let date: u16 = self.date;
        assert(date & 0b11111 == date % 32) by (bit_vector);
        (self.date & DAY_MASK) as usize
    }

    /// The hour as it is stored, from 0 to 31.
    pub fn hour(&self) -> (r: usize)
        ensures
            r == self.spec_hour(),
            r < 32,
    {
        let time: u16 = self.time;
        assert((time >> 11) & 0b11111 == time / 2048) by (bit_vector);
        ((self.time >> HOUR_SHIFT) & HOUR_MASK) as usize
    }

    /// The minute as it is stored, from 0 to 63.
    pub fn minute(&self) -> (r: usize)
        ensures
            r == self.spec_minute(),
            r < 64,
    {
        let time: u16 = self.time;
        assert((time >> 5) & 0b111111 == time / 32 % 64) by (bit_vector);
        ((self.time >> MINUTE_SHIFT) & MINUTE_MASK) as usize
    }

    /// The second, which is always even: the time word keeps half of it.
    pub fn second(&self) -> (r: usize)
        ensures
            r == self.spec_second(),
            r < 64,
            r % 2 == 0,
    {
        let time: u16 = self.time;
        assert((time & 0b11111) << 1 == time % 32 * 2) by (bit_vector);
        ((self.time & HALF_SECOND_MASK) << 1) as usize
    }

    /// Year, month, day, hour, minute and second, in this order.
    pub fn to_tuple(&self) -> (r: (usize, usize, usize, usize, usize, usize))
        ensures
            r.0 == self.spec_year(),
            r.1 == self.spec_month(),
            r.2 == self.spec_day(),
            r.3 == self.spec_hour(),
            r.4 == self.spec_minute(),
            r.5 == self.spec_second(),
    {
        (self.year(), self.month(), self.day(), self.hour(), self.minute(), self.second())
    }

    /// Reads the time word and the date word at the position of `r` and
    /// moves past them. When fewer than four bytes are left, `r` stays where
    /// it was.
    pub fn read(r: &mut ByteReader) -> (res: Result<MsdosDateTime, IoError>)
        ensures
            final(r).bytes() == old(r).bytes(),
            match res {
                Ok(d) => {
                    &&& ByteReader::in_range(old(r).bytes(), old(r).offset(), 4)
                    &&& d == Self::decode(old(r).bytes(), old(r).offset())
                    &&& final(r).offset() == old(r).offset() + 4
                },
                Err(e) => {
                    &&& !ByteReader::in_range(old(r).bytes(), old(r).offset(), 4)
                    &&& e == IoError::EndOfFile
                    &&& final(r).offset() == old(r).offset()
                },
            },
    {
        let start: u64 = r.tell();
        let time: u16 = r.read_le_u16()?;
        match r.read_le_u16() {
            Ok(date) => Ok(MsdosDateTime { time, date }),
            Err(e) => {
                r.seek(start);
                Err(e)
            },
        }
    }

    /// Appends the time word and the date word to `w`.
    pub fn write(&self, w: &mut Vec<u8>)
        ensures
            final(w)@ == old(w)@ + self.encode(),
    {
        write_le_u16(w, self.time);
        write_le_u16(w, self.date);
    }
}

/// A time word gives back the three fields it was built from.
proof fn lemma_unpack_time(h: int, m: int, s: int)
    requires
        0 <= h,
        0 <= m < 64,
        0 <= s < 32,
    ensures
        (h * 2048 + m * 32 + s) / 2048 == h,
        (h * 2048 + m * 32 + s) / 32 % 64 == m,
        (h * 2048 + m * 32 + s) % 32 == s,
{
    let w = h * 2048 + m * 32 + s;
    assert(w / 32 == h * 64 + m);
}

/// A date word gives back the three fields it was built from.
proof fn lemma_unpack_date(y: int, m: int, d: int)
    requires
        0 <= y,
        0 <= m < 16,
        0 <= d < 32,
    ensures
        (y * 512 + m * 32 + d) / 512 == y,
        (y * 512 + m * 32 + d) / 32 % 16 == m,
        (y * 512 + m * 32 + d) % 32 == d,
{
    let w = y * 512 + m * 32 + d;
    assert(w / 32 == y * 16 + m);
}

/// Packing a date and a time and taking them apart again gives back every
/// component reduced to the width of its field, and the second rounded down
/// to an even one. A component that fits its field comes back unchanged,
/// and a second below 64 comes back with its last bit cleared.
pub proof fn lemma_datetime_round_trip(
    year: int,
    month: int,
    day: int,
    hour: int,
    minute: int,
    second: int,
)
    ensures
        ({
            let d = MsdosDateTime::from_words(
                MsdosDateTime::pack_time(hour, minute, second) as u16,
                MsdosDateTime::pack_date(year, month, day) as u16,
            );
            &&& d.spec_year() == 1980 + (year - 1980) % 128
            &&& d.spec_month() == month % 16
            &&& d.spec_day() == day % 32
            &&& d.spec_hour() == hour % 32
            &&& d.spec_minute() == minute % 64
            &&& d.spec_second() == second % 64 - second % 2
            &&& 1980 <= year < 1980 + 128 ==> d.spec_year() == year
            &&& 0 <= month < 16 ==> d.spec_month() == month
            &&& 0 <= day < 32 ==> d.spec_day() == day
            &&& 0 <= hour < 32 ==> d.spec_hour() == hour
            &&& 0 <= minute < 64 ==> d.spec_minute() == minute
            &&& 0 <= second < 64 ==> d.spec_second() == second - second % 2
        }),
{
    MsdosDateTime::lemma_words(
        MsdosDateTime::pack_time(hour, minute, second) as u16,
        MsdosDateTime::pack_date(year, month, day) as u16,
    );
    lemma_unpack_time(hour % 32, minute % 64, second % 64 / 2);
    lemma_unpack_date((year - 1980) % 128, month % 16, day % 32);
}

/// The bytes that `write` appends decode to the value that was written.
pub proof fn lemma_datetime_decode_encode(d: MsdosDateTime)
    ensures
        d.encode().len() == 4,
        MsdosDateTime::decode(d.encode(), 0) == d,
{
    d.lemma_from_own_words();
}

} // verus!
