//! The literal tokens of the grammar: property names, enumerated values,
//! parameter names and recurrence-rule keys.
//!
//! Each token has a spec form (`kw_*`, a byte sequence) and an exec form
//! (`lit_*`, an array whose view is that sequence), so that contracts and
//! code speak of the same bytes.

use vstd::prelude::*;

verus! {

/// `BEGIN`
pub open spec fn kw_begin() -> Seq<u8> {
    seq![66u8, 69u8, 71u8, 73u8, 78u8]
}

/// `BEGIN`
pub fn lit_begin() -> (r: [u8; 5])
    ensures
        r@ == kw_begin(),
{
    let a: [u8; 5] = [66u8, 69u8, 71u8, 73u8, 78u8];
    proof {
        assert(a@ =~= kw_begin());
    }
    a
}

/// `END`
pub open spec fn kw_end() -> Seq<u8> {
    seq![69u8, 78u8, 68u8]
}

/// `END`
pub fn lit_end() -> (r: [u8; 3])
    ensures
        r@ == kw_end(),
{
    let a: [u8; 3] = [69u8, 78u8, 68u8];
    proof {
        assert(a@ =~= kw_end());
    }
    a
}

/// `VCALENDAR`
pub open spec fn kw_vcalendar() -> Seq<u8> {
    seq![86u8, 67u8, 65u8, 76u8, 69u8, 78u8, 68u8, 65u8, 82u8]
}

/// `VCALENDAR`
pub fn lit_vcalendar() -> (r: [u8; 9])
    ensures
        r@ == kw_vcalendar(),
{
    let a: [u8; 9] = [86u8, 67u8, 65u8, 76u8, 69u8, 78u8, 68u8, 65u8, 82u8];
    proof {
        assert(a@ =~= kw_vcalendar());
    }
    a
}

/// `VEVENT`
pub open spec fn kw_vevent() -> Seq<u8> {
    seq![86u8, 69u8, 86u8, 69u8, 78u8, 84u8]
}

/// `VEVENT`
pub fn lit_vevent() -> (r: [u8; 6])
    ensures
        r@ == kw_vevent(),
{
    let a: [u8; 6] = [86u8, 69u8, 86u8, 69u8, 78u8, 84u8];
    proof {
        assert(a@ =~= kw_vevent());
    }
    a
}

/// `PRODID`
pub open spec fn kw_prodid() -> Seq<u8> {
    seq![80u8, 82u8, 79u8, 68u8, 73u8, 68u8]
}

/// `PRODID`
pub fn lit_prodid() -> (r: [u8; 6])
    ensures
        r@ == kw_prodid(),
{
    let a: [u8; 6] = [80u8, 82u8, 79u8, 68u8, 73u8, 68u8];
    proof {
        assert(a@ =~= kw_prodid());
    }
    a
}

/// `VERSION`
pub open spec fn kw_version() -> Seq<u8> {
    seq![86u8, 69u8, 82u8, 83u8, 73u8, 79u8, 78u8]
}

/// `VERSION`
pub fn lit_version() -> (r: [u8; 7])
    ensures
        r@ == kw_version(),
{
    let a: [u8; 7] = [86u8, 69u8, 82u8, 83u8, 73u8, 79u8, 78u8];
    proof {
        assert(a@ =~= kw_version());
    }
    a
}

/// `CALSCALE`
pub open spec fn kw_calscale() -> Seq<u8> {
    seq![67u8, 65u8, 76u8, 83u8, 67u8, 65u8, 76u8, 69u8]
}

/// `CALSCALE`
pub fn lit_calscale() -> (r: [u8; 8])
    ensures
        r@ == kw_calscale(),
{
    let a: [u8; 8] = [67u8, 65u8, 76u8, 83u8, 67u8, 65u8, 76u8, 69u8];
    proof {
        assert(a@ =~= kw_calscale());
    }
    a
}

/// `METHOD`
pub open spec fn kw_method() -> Seq<u8> {
    seq![77u8, 69u8, 84u8, 72u8, 79u8, 68u8]
}

/// `METHOD`
pub fn lit_method() -> (r: [u8; 6])
    ensures
        r@ == kw_method(),
{
    let a: [u8; 6] = [77u8, 69u8, 84u8, 72u8, 79u8, 68u8];
    proof {
        assert(a@ =~= kw_method());
    }
    a
}

/// `CLASS`
pub open spec fn kw_class() -> Seq<u8> {
    seq![67u8, 76u8, 65u8, 83u8, 83u8]
}

/// `CLASS`
pub fn lit_class() -> (r: [u8; 5])
    ensures
        r@ == kw_class(),
{
    let a: [u8; 5] = [67u8, 76u8, 65u8, 83u8, 83u8];
    proof {
        assert(a@ =~= kw_class());
    }
    a
}

/// `CREATED`
pub open spec fn kw_created() -> Seq<u8> {
    seq![67u8, 82u8, 69u8, 65u8, 84u8, 69u8, 68u8]
}

/// `CREATED`
pub fn lit_created() -> (r: [u8; 7])
    ensures
        r@ == kw_created(),
{
    let a: [u8; 7] = [67u8, 82u8, 69u8, 65u8, 84u8, 69u8, 68u8];
    proof {
        assert(a@ =~= kw_created());
    }
    a
}

/// `DESCRIPTION`
pub open spec fn kw_description() -> Seq<u8> {
    seq![68u8, 69u8, 83u8, 67u8, 82u8, 73u8, 80u8, 84u8, 73u8, 79u8, 78u8]
}

/// `DESCRIPTION`
pub fn lit_description() -> (r: [u8; 11])
    ensures
        r@ == kw_description(),
{
    let a: [u8; 11] = [68u8, 69u8, 83u8, 67u8, 82u8, 73u8, 80u8, 84u8, 73u8, 79u8, 78u8];
    proof {
        assert(a@ =~= kw_description());
    }
    a
}

/// `DTSTART`
pub open spec fn kw_dtstart() -> Seq<u8> {
    seq![68u8, 84u8, 83u8, 84u8, 65u8, 82u8, 84u8]
}

/// `DTSTART`
pub fn lit_dtstart() -> (r: [u8; 7])
    ensures
        r@ == kw_dtstart(),
{
    let a: [u8; 7] = [68u8, 84u8, 83u8, 84u8, 65u8, 82u8, 84u8];
    proof {
        assert(a@ =~= kw_dtstart());
    }
    a
}

/// `GEO`
pub open spec fn kw_geo() -> Seq<u8> {
    seq![71u8, 69u8, 79u8]
}

/// `GEO`
pub fn lit_geo() -> (r: [u8; 3])
    ensures
        r@ == kw_geo(),
{
    let a: [u8; 3] = [71u8, 69u8, 79u8];
    proof {
        assert(a@ =~= kw_geo());
    }
    a
}

/// `LAST-MODIFIED`
pub open spec fn kw_last_modified() -> Seq<u8> {
    seq![76u8, 65u8, 83u8, 84u8, 45u8, 77u8, 79u8, 68u8, 73u8, 70u8, 73u8, 69u8, 68u8]
}

/// `LAST-MODIFIED`
pub fn lit_last_modified() -> (r: [u8; 13])
    ensures
        r@ == kw_last_modified(),
{
    let a: [u8; 13] = [76u8, 65u8, 83u8, 84u8, 45u8, 77u8, 79u8, 68u8, 73u8, 70u8, 73u8, 69u8, 68u8];
    proof {
        assert(a@ =~= kw_last_modified());
    }
    a
}

/// `LOCATION`
pub open spec fn kw_location() -> Seq<u8> {
    seq![76u8, 79u8, 67u8, 65u8, 84u8, 73u8, 79u8, 78u8]
}

/// `LOCATION`
pub fn lit_location() -> (r: [u8; 8])
    ensures
        r@ == kw_location(),
{
    let a: [u8; 8] = [76u8, 79u8, 67u8, 65u8, 84u8, 73u8, 79u8, 78u8];
    proof {
        assert(a@ =~= kw_location());
    }
    a
}

/// `ORGANIZER`
pub open spec fn kw_organizer() -> Seq<u8> {
    seq![79u8, 82u8, 71u8, 65u8, 78u8, 73u8, 90u8, 69u8, 82u8]
}

/// `ORGANIZER`
pub fn lit_organizer() -> (r: [u8; 9])
    ensures
        r@ == kw_organizer(),
{
    let a: [u8; 9] = [79u8, 82u8, 71u8, 65u8, 78u8, 73u8, 90u8, 69u8, 82u8];
    proof {
        assert(a@ =~= kw_organizer());
    }
    a
}

/// `PRIORITY`
pub open spec fn kw_priority() -> Seq<u8> {
    seq![80u8, 82u8, 73u8, 79u8, 82u8, 73u8, 84u8, 89u8]
}

/// `PRIORITY`
pub fn lit_priority() -> (r: [u8; 8])
    ensures
        r@ == kw_priority(),
{
    let a: [u8; 8] = [80u8, 82u8, 73u8, 79u8, 82u8, 73u8, 84u8, 89u8];
    proof {
        assert(a@ =~= kw_priority());
    }
    a
}

/// `DTSTAMP`
pub open spec fn kw_dtstamp() -> Seq<u8> {
    seq![68u8, 84u8, 83u8, 84u8, 65u8, 77u8, 80u8]
}

/// `DTSTAMP`
pub fn lit_dtstamp() -> (r: [u8; 7])
    ensures
        r@ == kw_dtstamp(),
{
    let a: [u8; 7] = [68u8, 84u8, 83u8, 84u8, 65u8, 77u8, 80u8];
    proof {
        assert(a@ =~= kw_dtstamp());
    }
    a
}

/// `SEQ`
pub open spec fn kw_seq_prop() -> Seq<u8> {
    seq![83u8, 69u8, 81u8]
}

/// `SEQ`
pub fn lit_seq_prop() -> (r: [u8; 3])
    ensures
        r@ == kw_seq_prop(),
{
    let a: [u8; 3] = [83u8, 69u8, 81u8];
    proof {
        assert(a@ =~= kw_seq_prop());
    }
    a
}

/// `STATUS`
pub open spec fn kw_status() -> Seq<u8> {
    seq![83u8, 84u8, 65u8, 84u8, 85u8, 83u8]
}

/// `STATUS`
pub fn lit_status() -> (r: [u8; 6])
    ensures
        r@ == kw_status(),
{
    let a: [u8; 6] = [83u8, 84u8, 65u8, 84u8, 85u8, 83u8];
    proof {
        assert(a@ =~= kw_status());
    }
    a
}

/// `SUMMARY`
pub open spec fn kw_summary() -> Seq<u8> {
    seq![83u8, 85u8, 77u8, 77u8, 65u8, 82u8, 89u8]
}

/// `SUMMARY`
pub fn lit_summary() -> (r: [u8; 7])
    ensures
        r@ == kw_summary(),
{
    let a: [u8; 7] = [83u8, 85u8, 77u8, 77u8, 65u8, 82u8, 89u8];
    proof {
        assert(a@ =~= kw_summary());
    }
    a
}

/// `TRANSP`
pub open spec fn kw_transp() -> Seq<u8> {
    seq![84u8, 82u8, 65u8, 78u8, 83u8, 80u8]
}

/// `TRANSP`
pub fn lit_transp() -> (r: [u8; 6])
    ensures
        r@ == kw_transp(),
{
    let a: [u8; 6] = [84u8, 82u8, 65u8, 78u8, 83u8, 80u8];
    proof {
        assert(a@ =~= kw_transp());
    }
    a
}

/// `UID`
pub open spec fn kw_uid() -> Seq<u8> {
    seq![85u8, 73u8, 68u8]
}

/// `UID`
pub fn lit_uid() -> (r: [u8; 3])
    ensures
        r@ == kw_uid(),
{
    let a: [u8; 3] = [85u8, 73u8, 68u8];
    proof {
        assert(a@ =~= kw_uid());
    }
    a
}

/// `RECURRENCE-ID`
pub open spec fn kw_recurrence_id() -> Seq<u8> {
    seq![82u8, 69u8, 67u8, 85u8, 82u8, 82u8, 69u8, 78u8, 67u8, 69u8, 45u8, 73u8, 68u8]
}

/// `RECURRENCE-ID`
pub fn lit_recurrence_id() -> (r: [u8; 13])
    ensures
        r@ == kw_recurrence_id(),
{
    let a: [u8; 13] = [82u8, 69u8, 67u8, 85u8, 82u8, 82u8, 69u8, 78u8, 67u8, 69u8, 45u8, 73u8, 68u8];
    proof {
        assert(a@ =~= kw_recurrence_id());
    }
    a
}

/// `DTEND`
pub open spec fn kw_dtend() -> Seq<u8> {
    seq![68u8, 84u8, 69u8, 78u8, 68u8]
}

/// `DTEND`
pub fn lit_dtend() -> (r: [u8; 5])
    ensures
        r@ == kw_dtend(),
{
    let a: [u8; 5] = [68u8, 84u8, 69u8, 78u8, 68u8];
    proof {
        assert(a@ =~= kw_dtend());
    }
    a
}

/// `DURATION`
pub open spec fn kw_duration() -> Seq<u8> {
    seq![68u8, 85u8, 82u8, 65u8, 84u8, 73u8, 79u8, 78u8]
}

/// `DURATION`
pub fn lit_duration() -> (r: [u8; 8])
    ensures
        r@ == kw_duration(),
{
    let a: [u8; 8] = [68u8, 85u8, 82u8, 65u8, 84u8, 73u8, 79u8, 78u8];
    proof {
        assert(a@ =~= kw_duration());
    }
    a
}

/// `ATTACHMENT`
pub open spec fn kw_attachment() -> Seq<u8> {
    seq![65u8, 84u8, 84u8, 65u8, 67u8, 72u8, 77u8, 69u8, 78u8, 84u8]
}

/// `ATTACHMENT`
pub fn lit_attachment() -> (r: [u8; 10])
    ensures
        r@ == kw_attachment(),
{
    let a: [u8; 10] = [65u8, 84u8, 84u8, 65u8, 67u8, 72u8, 77u8, 69u8, 78u8, 84u8];
    proof {
        assert(a@ =~= kw_attachment());
    }
    a
}

/// `ATTENDEE`
pub open spec fn kw_attendee() -> Seq<u8> {
    seq![65u8, 84u8, 84u8, 69u8, 78u8, 68u8, 69u8, 69u8]
}

/// `ATTENDEE`
pub fn lit_attendee() -> (r: [u8; 8])
    ensures
        r@ == kw_attendee(),
{
    let a: [u8; 8] = [65u8, 84u8, 84u8, 69u8, 78u8, 68u8, 69u8, 69u8];
    proof {
        assert(a@ =~= kw_attendee());
    }
    a
}

/// `CATEGORIES`
pub open spec fn kw_categories() -> Seq<u8> {
    seq![67u8, 65u8, 84u8, 69u8, 71u8, 79u8, 82u8, 73u8, 69u8, 83u8]
}

/// `CATEGORIES`
pub fn lit_categories() -> (r: [u8; 10])
    ensures
        r@ == kw_categories(),
{
    let a: [u8; 10] = [67u8, 65u8, 84u8, 69u8, 71u8, 79u8, 82u8, 73u8, 69u8, 83u8];
    proof {
        assert(a@ =~= kw_categories());
    }
    a
}

/// `COMMENT`
pub open spec fn kw_comment() -> Seq<u8> {
    seq![67u8, 79u8, 77u8, 77u8, 69u8, 78u8, 84u8]
}

/// `COMMENT`
pub fn lit_comment() -> (r: [u8; 7])
    ensures
        r@ == kw_comment(),
{
    let a: [u8; 7] = [67u8, 79u8, 77u8, 77u8, 69u8, 78u8, 84u8];
    proof {
        assert(a@ =~= kw_comment());
    }
    a
}

/// `CONTACT`
pub open spec fn kw_contact() -> Seq<u8> {
    seq![67u8, 79u8, 78u8, 84u8, 65u8, 67u8, 84u8]
}

/// `CONTACT`
pub fn lit_contact() -> (r: [u8; 7])
    ensures
        r@ == kw_contact(),
{
    let a: [u8; 7] = [67u8, 79u8, 78u8, 84u8, 65u8, 67u8, 84u8];
    proof {
        assert(a@ =~= kw_contact());
    }
    a
}

/// `EXDATE`
pub open spec fn kw_exdate() -> Seq<u8> {
    seq![69u8, 88u8, 68u8, 65u8, 84u8, 69u8]
}

/// `EXDATE`
pub fn lit_exdate() -> (r: [u8; 6])
    ensures
        r@ == kw_exdate(),
{
    let a: [u8; 6] = [69u8, 88u8, 68u8, 65u8, 84u8, 69u8];
    proof {
        assert(a@ =~= kw_exdate());
    }
    a
}

/// `GREGORIAN`
pub open spec fn kw_gregorian() -> Seq<u8> {
    seq![71u8, 82u8, 69u8, 71u8, 79u8, 82u8, 73u8, 65u8, 78u8]
}

/// `GREGORIAN`
pub fn lit_gregorian() -> (r: [u8; 9])
    ensures
        r@ == kw_gregorian(),
{
    let a: [u8; 9] = [71u8, 82u8, 69u8, 71u8, 79u8, 82u8, 73u8, 65u8, 78u8];
    proof {
        assert(a@ =~= kw_gregorian());
    }
    a
}

/// `2.0`
pub open spec fn kw_two_point_zero() -> Seq<u8> {
    seq![50u8, 46u8, 48u8]
}

/// `2.0`
pub fn lit_two_point_zero() -> (r: [u8; 3])
    ensures
        r@ == kw_two_point_zero(),
{
    let a: [u8; 3] = [50u8, 46u8, 48u8];
    proof {
        assert(a@ =~= kw_two_point_zero());
    }
    a
}

/// `PUBLIC`
pub open spec fn kw_public() -> Seq<u8> {
    seq![80u8, 85u8, 66u8, 76u8, 73u8, 67u8]
}

/// `PUBLIC`
pub fn lit_public() -> (r: [u8; 6])
    ensures
        r@ == kw_public(),
{
    let a: [u8; 6] = [80u8, 85u8, 66u8, 76u8, 73u8, 67u8];
    proof {
        assert(a@ =~= kw_public());
    }
    a
}

/// `PRIVATE`
pub open spec fn kw_private() -> Seq<u8> {
    seq![80u8, 82u8, 73u8, 86u8, 65u8, 84u8, 69u8]
}

/// `PRIVATE`
pub fn lit_private() -> (r: [u8; 7])
    ensures
        r@ == kw_private(),
{
    let a: [u8; 7] = [80u8, 82u8, 73u8, 86u8, 65u8, 84u8, 69u8];
    proof {
        assert(a@ =~= kw_private());
    }
    a
}

/// `CONFIDENTIAL`
pub open spec fn kw_confidential() -> Seq<u8> {
    seq![67u8, 79u8, 78u8, 70u8, 73u8, 68u8, 69u8, 78u8, 84u8, 73u8, 65u8, 76u8]
}

/// `CONFIDENTIAL`
pub fn lit_confidential() -> (r: [u8; 12])
    ensures
        r@ == kw_confidential(),
{
    let a: [u8; 12] = [67u8, 79u8, 78u8, 70u8, 73u8, 68u8, 69u8, 78u8, 84u8, 73u8, 65u8, 76u8];
    proof {
        assert(a@ =~= kw_confidential());
    }
    a
}

/// `TENTATIVE`
pub open spec fn kw_tentative() -> Seq<u8> {
    seq![84u8, 69u8, 78u8, 84u8, 65u8, 84u8, 73u8, 86u8, 69u8]
}

/// `TENTATIVE`
pub fn lit_tentative() -> (r: [u8; 9])
    ensures
        r@ == kw_tentative(),
{
    let a: [u8; 9] = [84u8, 69u8, 78u8, 84u8, 65u8, 84u8, 73u8, 86u8, 69u8];
    proof {
        assert(a@ =~= kw_tentative());
    }
    a
}

/// `CONFIRMED`
pub open spec fn kw_confirmed() -> Seq<u8> {
    seq![67u8, 79u8, 78u8, 70u8, 73u8, 82u8, 77u8, 69u8, 68u8]
}

/// `CONFIRMED`
pub fn lit_confirmed() -> (r: [u8; 9])
    ensures
        r@ == kw_confirmed(),
{
    let a: [u8; 9] = [67u8, 79u8, 78u8, 70u8, 73u8, 82u8, 77u8, 69u8, 68u8];
    proof {
        assert(a@ =~= kw_confirmed());
    }
    a
}

/// `CANCELLED`
pub open spec fn kw_cancelled() -> Seq<u8> {
    seq![67u8, 65u8, 78u8, 67u8, 69u8, 76u8, 76u8, 69u8, 68u8]
}

/// `CANCELLED`
pub fn lit_cancelled() -> (r: [u8; 9])
    ensures
        r@ == kw_cancelled(),
{
    let a: [u8; 9] = [67u8, 65u8, 78u8, 67u8, 69u8, 76u8, 76u8, 69u8, 68u8];
    proof {
        assert(a@ =~= kw_cancelled());
    }
    a
}

/// `OPAQUE`
pub open spec fn kw_opaque() -> Seq<u8> {
    seq![79u8, 80u8, 65u8, 81u8, 85u8, 69u8]
}

/// `OPAQUE`
pub fn lit_opaque() -> (r: [u8; 6])
    ensures
        r@ == kw_opaque(),
{
    let a: [u8; 6] = [79u8, 80u8, 65u8, 81u8, 85u8, 69u8];
    proof {
        assert(a@ =~= kw_opaque());
    }
    a
}

/// `TRANSPARENT`
pub open spec fn kw_transparent() -> Seq<u8> {
    seq![84u8, 82u8, 65u8, 78u8, 83u8, 80u8, 65u8, 82u8, 69u8, 78u8, 84u8]
}

/// `TRANSPARENT`
pub fn lit_transparent() -> (r: [u8; 11])
    ensures
        r@ == kw_transparent(),
{
    let a: [u8; 11] = [84u8, 82u8, 65u8, 78u8, 83u8, 80u8, 65u8, 82u8, 69u8, 78u8, 84u8];
    proof {
        assert(a@ =~= kw_transparent());
    }
    a
}

/// `DATE`
pub open spec fn kw_date() -> Seq<u8> {
    seq![68u8, 65u8, 84u8, 69u8]
}

/// `DATE`
pub fn lit_date() -> (r: [u8; 4])
    ensures
        r@ == kw_date(),
{
    let a: [u8; 4] = [68u8, 65u8, 84u8, 69u8];
    proof {
        assert(a@ =~= kw_date());
    }
    a
}

/// `DATE-TIME`
pub open spec fn kw_date_time() -> Seq<u8> {
    seq![68u8, 65u8, 84u8, 69u8, 45u8, 84u8, 73u8, 77u8, 69u8]
}

/// `DATE-TIME`
pub fn lit_date_time() -> (r: [u8; 9])
    ensures
        r@ == kw_date_time(),
{
    let a: [u8; 9] = [68u8, 65u8, 84u8, 69u8, 45u8, 84u8, 73u8, 77u8, 69u8];
    proof {
        assert(a@ =~= kw_date_time());
    }
    a
}

/// `BINARY`
pub open spec fn kw_binary() -> Seq<u8> {
    seq![66u8, 73u8, 78u8, 65u8, 82u8, 89u8]
}

/// `BINARY`
pub fn lit_binary() -> (r: [u8; 6])
    ensures
        r@ == kw_binary(),
{
    let a: [u8; 6] = [66u8, 73u8, 78u8, 65u8, 82u8, 89u8];
    proof {
        assert(a@ =~= kw_binary());
    }
    a
}

/// `BASE64`
pub open spec fn kw_base64() -> Seq<u8> {
    seq![66u8, 65u8, 83u8, 69u8, 54u8, 52u8]
}

/// `BASE64`
pub fn lit_base64() -> (r: [u8; 6])
    ensures
        r@ == kw_base64(),
{
    let a: [u8; 6] = [66u8, 65u8, 83u8, 69u8, 54u8, 52u8];
    proof {
        assert(a@ =~= kw_base64());
    }
    a
}

/// `TRUE`
pub open spec fn kw_true() -> Seq<u8> {
    seq![84u8, 82u8, 85u8, 69u8]
}

/// `TRUE`
pub fn lit_true() -> (r: [u8; 4])
    ensures
        r@ == kw_true(),
{
    let a: [u8; 4] = [84u8, 82u8, 85u8, 69u8];
    proof {
        assert(a@ =~= kw_true());
    }
    a
}

/// `FALSE`
pub open spec fn kw_false() -> Seq<u8> {
    seq![70u8, 65u8, 76u8, 83u8, 69u8]
}

/// `FALSE`
pub fn lit_false() -> (r: [u8; 5])
    ensures
        r@ == kw_false(),
{
    let a: [u8; 5] = [70u8, 65u8, 76u8, 83u8, 69u8];
    proof {
        assert(a@ =~= kw_false());
    }
    a
}

/// `8BIT`
pub open spec fn kw_bit8() -> Seq<u8> {
    seq![56u8, 66u8, 73u8, 84u8]
}

/// `8BIT`
pub fn lit_bit8() -> (r: [u8; 4])
    ensures
        r@ == kw_bit8(),
{
    let a: [u8; 4] = [56u8, 66u8, 73u8, 84u8];
    proof {
        assert(a@ =~= kw_bit8());
    }
    a
}

/// `ALTREP`
pub open spec fn kw_altrep() -> Seq<u8> {
    seq![65u8, 76u8, 84u8, 82u8, 69u8, 80u8]
}

/// `ALTREP`
pub fn lit_altrep() -> (r: [u8; 6])
    ensures
        r@ == kw_altrep(),
{
    let a: [u8; 6] = [65u8, 76u8, 84u8, 82u8, 69u8, 80u8];
    proof {
        assert(a@ =~= kw_altrep());
    }
    a
}

/// `CN`
pub open spec fn kw_cn() -> Seq<u8> {
    seq![67u8, 78u8]
}

/// `CN`
pub fn lit_cn() -> (r: [u8; 2])
    ensures
        r@ == kw_cn(),
{
    let a: [u8; 2] = [67u8, 78u8];
    proof {
        assert(a@ =~= kw_cn());
    }
    a
}

/// `CUTYPE`
pub open spec fn kw_cutype() -> Seq<u8> {
    seq![67u8, 85u8, 84u8, 89u8, 80u8, 69u8]
}

/// `CUTYPE`
pub fn lit_cutype() -> (r: [u8; 6])
    ensures
        r@ == kw_cutype(),
{
    let a: [u8; 6] = [67u8, 85u8, 84u8, 89u8, 80u8, 69u8];
    proof {
        assert(a@ =~= kw_cutype());
    }
    a
}

/// `DELEGATED-FROM`
pub open spec fn kw_delegated_from() -> Seq<u8> {
    seq![68u8, 69u8, 76u8, 69u8, 71u8, 65u8, 84u8, 69u8, 68u8, 45u8, 70u8, 82u8, 79u8, 77u8]
}

/// `DELEGATED-FROM`
pub fn lit_delegated_from() -> (r: [u8; 14])
    ensures
        r@ == kw_delegated_from(),
{
    let a: [u8; 14] = [68u8, 69u8, 76u8, 69u8, 71u8, 65u8, 84u8, 69u8, 68u8, 45u8, 70u8, 82u8, 79u8, 77u8];
    proof {
        assert(a@ =~= kw_delegated_from());
    }
    a
}

/// `DELEGATED-TO`
pub open spec fn kw_delegated_to() -> Seq<u8> {
    seq![68u8, 69u8, 76u8, 69u8, 71u8, 65u8, 84u8, 69u8, 68u8, 45u8, 84u8, 79u8]
}

/// `DELEGATED-TO`
pub fn lit_delegated_to() -> (r: [u8; 12])
    ensures
        r@ == kw_delegated_to(),
{
    let a: [u8; 12] = [68u8, 69u8, 76u8, 69u8, 71u8, 65u8, 84u8, 69u8, 68u8, 45u8, 84u8, 79u8];
    proof {
        assert(a@ =~= kw_delegated_to());
    }
    a
}

/// `DIR`
pub open spec fn kw_dir() -> Seq<u8> {
    seq![68u8, 73u8, 82u8]
}

/// `DIR`
pub fn lit_dir() -> (r: [u8; 3])
    ensures
        r@ == kw_dir(),
{
    let a: [u8; 3] = [68u8, 73u8, 82u8];
    proof {
        assert(a@ =~= kw_dir());
    }
    a
}

/// `ENCODING`
pub open spec fn kw_encoding() -> Seq<u8> {
    seq![69u8, 78u8, 67u8, 79u8, 68u8, 73u8, 78u8, 71u8]
}

/// `ENCODING`
pub fn lit_encoding() -> (r: [u8; 8])
    ensures
        r@ == kw_encoding(),
{
    let a: [u8; 8] = [69u8, 78u8, 67u8, 79u8, 68u8, 73u8, 78u8, 71u8];
    proof {
        assert(a@ =~= kw_encoding());
    }
    a
}

/// `FMTTYPE`
pub open spec fn kw_fmttype() -> Seq<u8> {
    seq![70u8, 77u8, 84u8, 84u8, 89u8, 80u8, 69u8]
}

/// `FMTTYPE`
pub fn lit_fmttype() -> (r: [u8; 7])
    ensures
        r@ == kw_fmttype(),
{
    let a: [u8; 7] = [70u8, 77u8, 84u8, 84u8, 89u8, 80u8, 69u8];
    proof {
        assert(a@ =~= kw_fmttype());
    }
    a
}

/// `FBTYPE`
pub open spec fn kw_fbtype() -> Seq<u8> {
    seq![70u8, 66u8, 84u8, 89u8, 80u8, 69u8]
}

/// `FBTYPE`
pub fn lit_fbtype() -> (r: [u8; 6])
    ensures
        r@ == kw_fbtype(),
{
    let a: [u8; 6] = [70u8, 66u8, 84u8, 89u8, 80u8, 69u8];
    proof {
        assert(a@ =~= kw_fbtype());
    }
    a
}

/// `LANGUAGE`
pub open spec fn kw_language() -> Seq<u8> {
    seq![76u8, 65u8, 78u8, 71u8, 85u8, 65u8, 71u8, 69u8]
}

/// `LANGUAGE`
pub fn lit_language() -> (r: [u8; 8])
    ensures
        r@ == kw_language(),
{
    let a: [u8; 8] = [76u8, 65u8, 78u8, 71u8, 85u8, 65u8, 71u8, 69u8];
    proof {
        assert(a@ =~= kw_language());
    }
    a
}

/// `MEMBER`
pub open spec fn kw_member() -> Seq<u8> {
    seq![77u8, 69u8, 77u8, 66u8, 69u8, 82u8]
}

/// `MEMBER`
pub fn lit_member() -> (r: [u8; 6])
    ensures
        r@ == kw_member(),
{
    let a: [u8; 6] = [77u8, 69u8, 77u8, 66u8, 69u8, 82u8];
    proof {
        assert(a@ =~= kw_member());
    }
    a
}

/// `PARTSTAT`
pub open spec fn kw_partstat() -> Seq<u8> {
    seq![80u8, 65u8, 82u8, 84u8, 83u8, 84u8, 65u8, 84u8]
}

/// `PARTSTAT`
pub fn lit_partstat() -> (r: [u8; 8])
    ensures
        r@ == kw_partstat(),
{
    let a: [u8; 8] = [80u8, 65u8, 82u8, 84u8, 83u8, 84u8, 65u8, 84u8];
    proof {
        assert(a@ =~= kw_partstat());
    }
    a
}

/// `RANGE`
pub open spec fn kw_range() -> Seq<u8> {
    seq![82u8, 65u8, 78u8, 71u8, 69u8]
}

/// `RANGE`
pub fn lit_range() -> (r: [u8; 5])
    ensures
        r@ == kw_range(),
{
    let a: [u8; 5] = [82u8, 65u8, 78u8, 71u8, 69u8];
    proof {
        assert(a@ =~= kw_range());
    }
    a
}

/// `ROLE`
pub open spec fn kw_role() -> Seq<u8> {
    seq![82u8, 79u8, 76u8, 69u8]
}

/// `ROLE`
pub fn lit_role() -> (r: [u8; 4])
    ensures
        r@ == kw_role(),
{
    let a: [u8; 4] = [82u8, 79u8, 76u8, 69u8];
    proof {
        assert(a@ =~= kw_role());
    }
    a
}

/// `RSVP`
pub open spec fn kw_rsvp() -> Seq<u8> {
    seq![82u8, 83u8, 86u8, 80u8]
}

/// `RSVP`
pub fn lit_rsvp() -> (r: [u8; 4])
    ensures
        r@ == kw_rsvp(),
{
    let a: [u8; 4] = [82u8, 83u8, 86u8, 80u8];
    proof {
        assert(a@ =~= kw_rsvp());
    }
    a
}

/// `SENT-BY`
pub open spec fn kw_sent_by() -> Seq<u8> {
    seq![83u8, 69u8, 78u8, 84u8, 45u8, 66u8, 89u8]
}

/// `SENT-BY`
pub fn lit_sent_by() -> (r: [u8; 7])
    ensures
        r@ == kw_sent_by(),
{
    let a: [u8; 7] = [83u8, 69u8, 78u8, 84u8, 45u8, 66u8, 89u8];
    proof {
        assert(a@ =~= kw_sent_by());
    }
    a
}

/// `TZID`
pub open spec fn kw_tzid() -> Seq<u8> {
    seq![84u8, 90u8, 73u8, 68u8]
}

/// `TZID`
pub fn lit_tzid() -> (r: [u8; 4])
    ensures
        r@ == kw_tzid(),
{
    let a: [u8; 4] = [84u8, 90u8, 73u8, 68u8];
    proof {
        assert(a@ =~= kw_tzid());
    }
    a
}

/// `VALUE`
pub open spec fn kw_value() -> Seq<u8> {
    seq![86u8, 65u8, 76u8, 85u8, 69u8]
}

/// `VALUE`
pub fn lit_value() -> (r: [u8; 5])
    ensures
        r@ == kw_value(),
{
    let a: [u8; 5] = [86u8, 65u8, 76u8, 85u8, 69u8];
    proof {
        assert(a@ =~= kw_value());
    }
    a
}

/// `INDIVIDUAL`
pub open spec fn kw_individual() -> Seq<u8> {
    seq![73u8, 78u8, 68u8, 73u8, 86u8, 73u8, 68u8, 85u8, 65u8, 76u8]
}

/// `INDIVIDUAL`
pub fn lit_individual() -> (r: [u8; 10])
    ensures
        r@ == kw_individual(),
{
    let a: [u8; 10] = [73u8, 78u8, 68u8, 73u8, 86u8, 73u8, 68u8, 85u8, 65u8, 76u8];
    proof {
        assert(a@ =~= kw_individual());
    }
    a
}

/// `GROUP`
pub open spec fn kw_group() -> Seq<u8> {
    seq![71u8, 82u8, 79u8, 85u8, 80u8]
}

/// `GROUP`
pub fn lit_group() -> (r: [u8; 5])
    ensures
        r@ == kw_group(),
{
    let a: [u8; 5] = [71u8, 82u8, 79u8, 85u8, 80u8];
    proof {
        assert(a@ =~= kw_group());
    }
    a
}

/// `RESOURCE`
pub open spec fn kw_resource() -> Seq<u8> {
    seq![82u8, 69u8, 83u8, 79u8, 85u8, 82u8, 67u8, 69u8]
}

/// `RESOURCE`
pub fn lit_resource() -> (r: [u8; 8])
    ensures
        r@ == kw_resource(),
{
    let a: [u8; 8] = [82u8, 69u8, 83u8, 79u8, 85u8, 82u8, 67u8, 69u8];
    proof {
        assert(a@ =~= kw_resource());
    }
    a
}

/// `ROOM`
pub open spec fn kw_room() -> Seq<u8> {
    seq![82u8, 79u8, 79u8, 77u8]
}

/// `ROOM`
pub fn lit_room() -> (r: [u8; 4])
    ensures
        r@ == kw_room(),
{
    let a: [u8; 4] = [82u8, 79u8, 79u8, 77u8];
    proof {
        assert(a@ =~= kw_room());
    }
    a
}

/// `UNKNOWN`
pub open spec fn kw_unknown() -> Seq<u8> {
    seq![85u8, 78u8, 75u8, 78u8, 79u8, 87u8, 78u8]
}

/// `UNKNOWN`
pub fn lit_unknown() -> (r: [u8; 7])
    ensures
        r@ == kw_unknown(),
{
    let a: [u8; 7] = [85u8, 78u8, 75u8, 78u8, 79u8, 87u8, 78u8];
    proof {
        assert(a@ =~= kw_unknown());
    }
    a
}

/// `FREE`
pub open spec fn kw_free() -> Seq<u8> {
    seq![70u8, 82u8, 69u8, 69u8]
}

/// `FREE`
pub fn lit_free() -> (r: [u8; 4])
    ensures
        r@ == kw_free(),
{
    let a: [u8; 4] = [70u8, 82u8, 69u8, 69u8];
    proof {
        assert(a@ =~= kw_free());
    }
    a
}

/// `BUSY`
pub open spec fn kw_busy() -> Seq<u8> {
    seq![66u8, 85u8, 83u8, 89u8]
}

/// `BUSY`
pub fn lit_busy() -> (r: [u8; 4])
    ensures
        r@ == kw_busy(),
{
    let a: [u8; 4] = [66u8, 85u8, 83u8, 89u8];
    proof {
        assert(a@ =~= kw_busy());
    }
    a
}

/// `BUSY-UNAVAILABLE`
pub open spec fn kw_busy_unavailable() -> Seq<u8> {
    seq![66u8, 85u8, 83u8, 89u8, 45u8, 85u8, 78u8, 65u8, 86u8, 65u8, 73u8, 76u8, 65u8, 66u8, 76u8, 69u8]
}

/// `BUSY-UNAVAILABLE`
pub fn lit_busy_unavailable() -> (r: [u8; 16])
    ensures
        r@ == kw_busy_unavailable(),
{
    let a: [u8; 16] = [66u8, 85u8, 83u8, 89u8, 45u8, 85u8, 78u8, 65u8, 86u8, 65u8, 73u8, 76u8, 65u8, 66u8, 76u8, 69u8];
    proof {
        assert(a@ =~= kw_busy_unavailable());
    }
    a
}

/// `BUSY-TENTATIVE`
pub open spec fn kw_busy_tentative() -> Seq<u8> {
    seq![66u8, 85u8, 83u8, 89u8, 45u8, 84u8, 69u8, 78u8, 84u8, 65u8, 84u8, 73u8, 86u8, 69u8]
}

/// `BUSY-TENTATIVE`
pub fn lit_busy_tentative() -> (r: [u8; 14])
    ensures
        r@ == kw_busy_tentative(),
{
    let a: [u8; 14] = [66u8, 85u8, 83u8, 89u8, 45u8, 84u8, 69u8, 78u8, 84u8, 65u8, 84u8, 73u8, 86u8, 69u8];
    proof {
        assert(a@ =~= kw_busy_tentative());
    }
    a
}

/// `NEEDS-ACTION`
pub open spec fn kw_needs_action() -> Seq<u8> {
    seq![78u8, 69u8, 69u8, 68u8, 83u8, 45u8, 65u8, 67u8, 84u8, 73u8, 79u8, 78u8]
}

/// `NEEDS-ACTION`
pub fn lit_needs_action() -> (r: [u8; 12])
    ensures
        r@ == kw_needs_action(),
{
    let a: [u8; 12] = [78u8, 69u8, 69u8, 68u8, 83u8, 45u8, 65u8, 67u8, 84u8, 73u8, 79u8, 78u8];
    proof {
        assert(a@ =~= kw_needs_action());
    }
    a
}

/// `ACCEPTED`
pub open spec fn kw_accepted() -> Seq<u8> {
    seq![65u8, 67u8, 67u8, 69u8, 80u8, 84u8, 69u8, 68u8]
}

/// `ACCEPTED`
pub fn lit_accepted() -> (r: [u8; 8])
    ensures
        r@ == kw_accepted(),
{
    let a: [u8; 8] = [65u8, 67u8, 67u8, 69u8, 80u8, 84u8, 69u8, 68u8];
    proof {
        assert(a@ =~= kw_accepted());
    }
    a
}

/// `DECLINED`
pub open spec fn kw_declined() -> Seq<u8> {
    seq![68u8, 69u8, 67u8, 76u8, 73u8, 78u8, 69u8, 68u8]
}

/// `DECLINED`
pub fn lit_declined() -> (r: [u8; 8])
    ensures
        r@ == kw_declined(),
{
    let a: [u8; 8] = [68u8, 69u8, 67u8, 76u8, 73u8, 78u8, 69u8, 68u8];
    proof {
        assert(a@ =~= kw_declined());
    }
    a
}

/// `DELEGATED`
pub open spec fn kw_delegated() -> Seq<u8> {
    seq![68u8, 69u8, 76u8, 69u8, 71u8, 65u8, 84u8, 69u8, 68u8]
}

/// `DELEGATED`
pub fn lit_delegated() -> (r: [u8; 9])
    ensures
        r@ == kw_delegated(),
{
    let a: [u8; 9] = [68u8, 69u8, 76u8, 69u8, 71u8, 65u8, 84u8, 69u8, 68u8];
    proof {
        assert(a@ =~= kw_delegated());
    }
    a
}

/// `COMPLETED`
pub open spec fn kw_completed() -> Seq<u8> {
    seq![67u8, 79u8, 77u8, 80u8, 76u8, 69u8, 84u8, 69u8, 68u8]
}

/// `COMPLETED`
pub fn lit_completed() -> (r: [u8; 9])
    ensures
        r@ == kw_completed(),
{
    let a: [u8; 9] = [67u8, 79u8, 77u8, 80u8, 76u8, 69u8, 84u8, 69u8, 68u8];
    proof {
        assert(a@ =~= kw_completed());
    }
    a
}

/// `IN-PROCESS`
pub open spec fn kw_in_process() -> Seq<u8> {
    seq![73u8, 78u8, 45u8, 80u8, 82u8, 79u8, 67u8, 69u8, 83u8, 83u8]
}

/// `IN-PROCESS`
pub fn lit_in_process() -> (r: [u8; 10])
    ensures
        r@ == kw_in_process(),
{
    let a: [u8; 10] = [73u8, 78u8, 45u8, 80u8, 82u8, 79u8, 67u8, 69u8, 83u8, 83u8];
    proof {
        assert(a@ =~= kw_in_process());
    }
    a
}

/// `THISANDPRIOR`
pub open spec fn kw_thisandprior() -> Seq<u8> {
    seq![84u8, 72u8, 73u8, 83u8, 65u8, 78u8, 68u8, 80u8, 82u8, 73u8, 79u8, 82u8]
}

/// `THISANDPRIOR`
pub fn lit_thisandprior() -> (r: [u8; 12])
    ensures
        r@ == kw_thisandprior(),
{
    let a: [u8; 12] = [84u8, 72u8, 73u8, 83u8, 65u8, 78u8, 68u8, 80u8, 82u8, 73u8, 79u8, 82u8];
    proof {
        assert(a@ =~= kw_thisandprior());
    }
    a
}

/// `THISANDFUTURE`
pub open spec fn kw_thisandfuture() -> Seq<u8> {
    seq![84u8, 72u8, 73u8, 83u8, 65u8, 78u8, 68u8, 70u8, 85u8, 84u8, 85u8, 82u8, 69u8]
}

/// `THISANDFUTURE`
pub fn lit_thisandfuture() -> (r: [u8; 13])
    ensures
        r@ == kw_thisandfuture(),
{
    let a: [u8; 13] = [84u8, 72u8, 73u8, 83u8, 65u8, 78u8, 68u8, 70u8, 85u8, 84u8, 85u8, 82u8, 69u8];
    proof {
        assert(a@ =~= kw_thisandfuture());
    }
    a
}

/// `START`
pub open spec fn kw_start() -> Seq<u8> {
    seq![83u8, 84u8, 65u8, 82u8, 84u8]
}

/// `START`
pub fn lit_start() -> (r: [u8; 5])
    ensures
        r@ == kw_start(),
{
    let a: [u8; 5] = [83u8, 84u8, 65u8, 82u8, 84u8];
    proof {
        assert(a@ =~= kw_start());
    }
    a
}

/// `PARENT`
pub open spec fn kw_parent() -> Seq<u8> {
    seq![80u8, 65u8, 82u8, 69u8, 78u8, 84u8]
}

/// `PARENT`
pub fn lit_parent() -> (r: [u8; 6])
    ensures
        r@ == kw_parent(),
{
    let a: [u8; 6] = [80u8, 65u8, 82u8, 69u8, 78u8, 84u8];
    proof {
        assert(a@ =~= kw_parent());
    }
    a
}

/// `CHILD`
pub open spec fn kw_child() -> Seq<u8> {
    seq![67u8, 72u8, 73u8, 76u8, 68u8]
}

/// `CHILD`
pub fn lit_child() -> (r: [u8; 5])
    ensures
        r@ == kw_child(),
{
    let a: [u8; 5] = [67u8, 72u8, 73u8, 76u8, 68u8];
    proof {
        assert(a@ =~= kw_child());
    }
    a
}

/// `SIBLING`
pub open spec fn kw_sibling() -> Seq<u8> {
    seq![83u8, 73u8, 66u8, 76u8, 73u8, 78u8, 71u8]
}

/// `SIBLING`
pub fn lit_sibling() -> (r: [u8; 7])
    ensures
        r@ == kw_sibling(),
{
    let a: [u8; 7] = [83u8, 73u8, 66u8, 76u8, 73u8, 78u8, 71u8];
    proof {
        assert(a@ =~= kw_sibling());
    }
    a
}

/// `CHAIR`
pub open spec fn kw_chair() -> Seq<u8> {
    seq![67u8, 72u8, 65u8, 73u8, 82u8]
}

/// `CHAIR`
pub fn lit_chair() -> (r: [u8; 5])
    ensures
        r@ == kw_chair(),
{
    let a: [u8; 5] = [67u8, 72u8, 65u8, 73u8, 82u8];
    proof {
        assert(a@ =~= kw_chair());
    }
    a
}

/// `REQ-PARTICIPANT`
pub open spec fn kw_req_participant() -> Seq<u8> {
    seq![82u8, 69u8, 81u8, 45u8, 80u8, 65u8, 82u8, 84u8, 73u8, 67u8, 73u8, 80u8, 65u8, 78u8, 84u8]
}

/// `REQ-PARTICIPANT`
pub fn lit_req_participant() -> (r: [u8; 15])
    ensures
        r@ == kw_req_participant(),
{
    let a: [u8; 15] = [82u8, 69u8, 81u8, 45u8, 80u8, 65u8, 82u8, 84u8, 73u8, 67u8, 73u8, 80u8, 65u8, 78u8, 84u8];
    proof {
        assert(a@ =~= kw_req_participant());
    }
    a
}

/// `OPT-PARTICIPANT`
pub open spec fn kw_opt_participant() -> Seq<u8> {
    seq![79u8, 80u8, 84u8, 45u8, 80u8, 65u8, 82u8, 84u8, 73u8, 67u8, 73u8, 80u8, 65u8, 78u8, 84u8]
}

/// `OPT-PARTICIPANT`
pub fn lit_opt_participant() -> (r: [u8; 15])
    ensures
        r@ == kw_opt_participant(),
{
    let a: [u8; 15] = [79u8, 80u8, 84u8, 45u8, 80u8, 65u8, 82u8, 84u8, 73u8, 67u8, 73u8, 80u8, 65u8, 78u8, 84u8];
    proof {
        assert(a@ =~= kw_opt_participant());
    }
    a
}

/// `NON-PARTICIPANT`
pub open spec fn kw_non_participant() -> Seq<u8> {
    seq![78u8, 79u8, 78u8, 45u8, 80u8, 65u8, 82u8, 84u8, 73u8, 67u8, 73u8, 80u8, 65u8, 78u8, 84u8]
}

/// `NON-PARTICIPANT`
pub fn lit_non_participant() -> (r: [u8; 15])
    ensures
        r@ == kw_non_participant(),
{
    let a: [u8; 15] = [78u8, 79u8, 78u8, 45u8, 80u8, 65u8, 82u8, 84u8, 73u8, 67u8, 73u8, 80u8, 65u8, 78u8, 84u8];
    proof {
        assert(a@ =~= kw_non_participant());
    }
    a
}

/// `BOOLEAN`
pub open spec fn kw_boolean() -> Seq<u8> {
    seq![66u8, 79u8, 79u8, 76u8, 69u8, 65u8, 78u8]
}

/// `BOOLEAN`
pub fn lit_boolean() -> (r: [u8; 7])
    ensures
        r@ == kw_boolean(),
{
    let a: [u8; 7] = [66u8, 79u8, 79u8, 76u8, 69u8, 65u8, 78u8];
    proof {
        assert(a@ =~= kw_boolean());
    }
    a
}

/// `CAL-ADDRESS`
pub open spec fn kw_cal_address() -> Seq<u8> {
    seq![67u8, 65u8, 76u8, 45u8, 65u8, 68u8, 68u8, 82u8, 69u8, 83u8, 83u8]
}

/// `CAL-ADDRESS`
pub fn lit_cal_address() -> (r: [u8; 11])
    ensures
        r@ == kw_cal_address(),
{
    let a: [u8; 11] = [67u8, 65u8, 76u8, 45u8, 65u8, 68u8, 68u8, 82u8, 69u8, 83u8, 83u8];
    proof {
        assert(a@ =~= kw_cal_address());
    }
    a
}

/// `FLOAT`
pub open spec fn kw_float() -> Seq<u8> {
    seq![70u8, 76u8, 79u8, 65u8, 84u8]
}

/// `FLOAT`
pub fn lit_float() -> (r: [u8; 5])
    ensures
        r@ == kw_float(),
{
    let a: [u8; 5] = [70u8, 76u8, 79u8, 65u8, 84u8];
    proof {
        assert(a@ =~= kw_float());
    }
    a
}

/// `INTEGER`
pub open spec fn kw_integer() -> Seq<u8> {
    seq![73u8, 78u8, 84u8, 69u8, 71u8, 69u8, 82u8]
}

/// `INTEGER`
pub fn lit_integer() -> (r: [u8; 7])
    ensures
        r@ == kw_integer(),
{
    let a: [u8; 7] = [73u8, 78u8, 84u8, 69u8, 71u8, 69u8, 82u8];
    proof {
        assert(a@ =~= kw_integer());
    }
    a
}

/// `PERIOD`
pub open spec fn kw_period() -> Seq<u8> {
    seq![80u8, 69u8, 82u8, 73u8, 79u8, 68u8]
}

/// `PERIOD`
pub fn lit_period() -> (r: [u8; 6])
    ensures
        r@ == kw_period(),
{
    let a: [u8; 6] = [80u8, 69u8, 82u8, 73u8, 79u8, 68u8];
    proof {
        assert(a@ =~= kw_period());
    }
    a
}

/// `RECUR`
pub open spec fn kw_recur() -> Seq<u8> {
    seq![82u8, 69u8, 67u8, 85u8, 82u8]
}

/// `RECUR`
pub fn lit_recur() -> (r: [u8; 5])
    ensures
        r@ == kw_recur(),
{
    let a: [u8; 5] = [82u8, 69u8, 67u8, 85u8, 82u8];
    proof {
        assert(a@ =~= kw_recur());
    }
    a
}

/// `TEXT`
pub open spec fn kw_text() -> Seq<u8> {
    seq![84u8, 69u8, 88u8, 84u8]
}

/// `TEXT`
pub fn lit_text() -> (r: [u8; 4])
    ensures
        r@ == kw_text(),
{
    let a: [u8; 4] = [84u8, 69u8, 88u8, 84u8];
    proof {
        assert(a@ =~= kw_text());
    }
    a
}

/// `TIME`
pub open spec fn kw_time() -> Seq<u8> {
    seq![84u8, 73u8, 77u8, 69u8]
}

/// `TIME`
pub fn lit_time() -> (r: [u8; 4])
    ensures
        r@ == kw_time(),
{
    let a: [u8; 4] = [84u8, 73u8, 77u8, 69u8];
    proof {
        assert(a@ =~= kw_time());
    }
    a
}

/// `URI`
pub open spec fn kw_uri() -> Seq<u8> {
    seq![85u8, 82u8, 73u8]
}

/// `URI`
pub fn lit_uri() -> (r: [u8; 3])
    ensures
        r@ == kw_uri(),
{
    let a: [u8; 3] = [85u8, 82u8, 73u8];
    proof {
        assert(a@ =~= kw_uri());
    }
    a
}

/// `UTC-OFFSET`
pub open spec fn kw_utc_offset() -> Seq<u8> {
    seq![85u8, 84u8, 67u8, 45u8, 79u8, 70u8, 70u8, 83u8, 69u8, 84u8]
}

/// `UTC-OFFSET`
pub fn lit_utc_offset() -> (r: [u8; 10])
    ensures
        r@ == kw_utc_offset(),
{
    let a: [u8; 10] = [85u8, 84u8, 67u8, 45u8, 79u8, 70u8, 70u8, 83u8, 69u8, 84u8];
    proof {
        assert(a@ =~= kw_utc_offset());
    }
    a
}

/// `X-`
pub open spec fn kw_x_prefix() -> Seq<u8> {
    seq![88u8, 45u8]
}

/// `X-`
pub fn lit_x_prefix() -> (r: [u8; 2])
    ensures
        r@ == kw_x_prefix(),
{
    let a: [u8; 2] = [88u8, 45u8];
    proof {
        assert(a@ =~= kw_x_prefix());
    }
    a
}

/// `FREQ=`
pub open spec fn kw_freq_eq() -> Seq<u8> {
    seq![70u8, 82u8, 69u8, 81u8, 61u8]
}

/// `FREQ=`
pub fn lit_freq_eq() -> (r: [u8; 5])
    ensures
        r@ == kw_freq_eq(),
{
    let a: [u8; 5] = [70u8, 82u8, 69u8, 81u8, 61u8];
    proof {
        assert(a@ =~= kw_freq_eq());
    }
    a
}

/// `SECONDLY`
pub open spec fn kw_secondly() -> Seq<u8> {
    seq![83u8, 69u8, 67u8, 79u8, 78u8, 68u8, 76u8, 89u8]
}

/// `SECONDLY`
pub fn lit_secondly() -> (r: [u8; 8])
    ensures
        r@ == kw_secondly(),
{
    let a: [u8; 8] = [83u8, 69u8, 67u8, 79u8, 78u8, 68u8, 76u8, 89u8];
    proof {
        assert(a@ =~= kw_secondly());
    }
    a
}

/// `MINUTELY`
pub open spec fn kw_minutely() -> Seq<u8> {
    seq![77u8, 73u8, 78u8, 85u8, 84u8, 69u8, 76u8, 89u8]
}

/// `MINUTELY`
pub fn lit_minutely() -> (r: [u8; 8])
    ensures
        r@ == kw_minutely(),
{
    let a: [u8; 8] = [77u8, 73u8, 78u8, 85u8, 84u8, 69u8, 76u8, 89u8];
    proof {
        assert(a@ =~= kw_minutely());
    }
    a
}

/// `HOURLY`
pub open spec fn kw_hourly() -> Seq<u8> {
    seq![72u8, 79u8, 85u8, 82u8, 76u8, 89u8]
}

/// `HOURLY`
pub fn lit_hourly() -> (r: [u8; 6])
    ensures
        r@ == kw_hourly(),
{
    let a: [u8; 6] = [72u8, 79u8, 85u8, 82u8, 76u8, 89u8];
    proof {
        assert(a@ =~= kw_hourly());
    }
    a
}

/// `DAILY`
pub open spec fn kw_daily() -> Seq<u8> {
    seq![68u8, 65u8, 73u8, 76u8, 89u8]
}

/// `DAILY`
pub fn lit_daily() -> (r: [u8; 5])
    ensures
        r@ == kw_daily(),
{
    let a: [u8; 5] = [68u8, 65u8, 73u8, 76u8, 89u8];
    proof {
        assert(a@ =~= kw_daily());
    }
    a
}

/// `WEEKLY`
pub open spec fn kw_weekly() -> Seq<u8> {
    seq![87u8, 69u8, 69u8, 75u8, 76u8, 89u8]
}

/// `WEEKLY`
pub fn lit_weekly() -> (r: [u8; 6])
    ensures
        r@ == kw_weekly(),
{
    let a: [u8; 6] = [87u8, 69u8, 69u8, 75u8, 76u8, 89u8];
    proof {
        assert(a@ =~= kw_weekly());
    }
    a
}

/// `MONTHLY`
pub open spec fn kw_monthly() -> Seq<u8> {
    seq![77u8, 79u8, 78u8, 84u8, 72u8, 76u8, 89u8]
}

/// `MONTHLY`
pub fn lit_monthly() -> (r: [u8; 7])
    ensures
        r@ == kw_monthly(),
{
    let a: [u8; 7] = [77u8, 79u8, 78u8, 84u8, 72u8, 76u8, 89u8];
    proof {
        assert(a@ =~= kw_monthly());
    }
    a
}

/// `YEARLY`
pub open spec fn kw_yearly() -> Seq<u8> {
    seq![89u8, 69u8, 65u8, 82u8, 76u8, 89u8]
}

/// `YEARLY`
pub fn lit_yearly() -> (r: [u8; 6])
    ensures
        r@ == kw_yearly(),
{
    let a: [u8; 6] = [89u8, 69u8, 65u8, 82u8, 76u8, 89u8];
    proof {
        assert(a@ =~= kw_yearly());
    }
    a
}

/// `UNTIL`
pub open spec fn kw_until() -> Seq<u8> {
    seq![85u8, 78u8, 84u8, 73u8, 76u8]
}

/// `UNTIL`
pub fn lit_until() -> (r: [u8; 5])
    ensures
        r@ == kw_until(),
{
    let a: [u8; 5] = [85u8, 78u8, 84u8, 73u8, 76u8];
    proof {
        assert(a@ =~= kw_until());
    }
    a
}

/// `COUNT`
pub open spec fn kw_count() -> Seq<u8> {
    seq![67u8, 79u8, 85u8, 78u8, 84u8]
}

/// `COUNT`
pub fn lit_count() -> (r: [u8; 5])
    ensures
        r@ == kw_count(),
{
    let a: [u8; 5] = [67u8, 79u8, 85u8, 78u8, 84u8];
    proof {
        assert(a@ =~= kw_count());
    }
    a
}

/// `INTERVAL`
pub open spec fn kw_interval() -> Seq<u8> {
    seq![73u8, 78u8, 84u8, 69u8, 82u8, 86u8, 65u8, 76u8]
}

/// `INTERVAL`
pub fn lit_interval() -> (r: [u8; 8])
    ensures
        r@ == kw_interval(),
{
    let a: [u8; 8] = [73u8, 78u8, 84u8, 69u8, 82u8, 86u8, 65u8, 76u8];
    proof {
        assert(a@ =~= kw_interval());
    }
    a
}

/// `BYSECOND`
pub open spec fn kw_bysecond() -> Seq<u8> {
    seq![66u8, 89u8, 83u8, 69u8, 67u8, 79u8, 78u8, 68u8]
}

/// `BYSECOND`
pub fn lit_bysecond() -> (r: [u8; 8])
    ensures
        r@ == kw_bysecond(),
{
    let a: [u8; 8] = [66u8, 89u8, 83u8, 69u8, 67u8, 79u8, 78u8, 68u8];
    proof {
        assert(a@ =~= kw_bysecond());
    }
    a
}

/// `BYMINUTE`
pub open spec fn kw_byminute() -> Seq<u8> {
    seq![66u8, 89u8, 77u8, 73u8, 78u8, 85u8, 84u8, 69u8]
}

/// `BYMINUTE`
pub fn lit_byminute() -> (r: [u8; 8])
    ensures
        r@ == kw_byminute(),
{
    let a: [u8; 8] = [66u8, 89u8, 77u8, 73u8, 78u8, 85u8, 84u8, 69u8];
    proof {
        assert(a@ =~= kw_byminute());
    }
    a
}

/// `BYHOUR`
pub open spec fn kw_byhour() -> Seq<u8> {
    seq![66u8, 89u8, 72u8, 79u8, 85u8, 82u8]
}

/// `BYHOUR`
pub fn lit_byhour() -> (r: [u8; 6])
    ensures
        r@ == kw_byhour(),
{
    let a: [u8; 6] = [66u8, 89u8, 72u8, 79u8, 85u8, 82u8];
    proof {
        assert(a@ =~= kw_byhour());
    }
    a
}

/// `BYDAY`
pub open spec fn kw_byday() -> Seq<u8> {
    seq![66u8, 89u8, 68u8, 65u8, 89u8]
}

/// `BYDAY`
pub fn lit_byday() -> (r: [u8; 5])
    ensures
        r@ == kw_byday(),
{
    let a: [u8; 5] = [66u8, 89u8, 68u8, 65u8, 89u8];
    proof {
        assert(a@ =~= kw_byday());
    }
    a
}

/// `BYMONTHDAY`
pub open spec fn kw_bymonthday() -> Seq<u8> {
    seq![66u8, 89u8, 77u8, 79u8, 78u8, 84u8, 72u8, 68u8, 65u8, 89u8]
}

/// `BYMONTHDAY`
pub fn lit_bymonthday() -> (r: [u8; 10])
    ensures
        r@ == kw_bymonthday(),
{
    let a: [u8; 10] = [66u8, 89u8, 77u8, 79u8, 78u8, 84u8, 72u8, 68u8, 65u8, 89u8];
    proof {
        assert(a@ =~= kw_bymonthday());
    }
    a
}

/// `BYYEARDAY`
pub open spec fn kw_byyearday() -> Seq<u8> {
    seq![66u8, 89u8, 89u8, 69u8, 65u8, 82u8, 68u8, 65u8, 89u8]
}

/// `BYYEARDAY`
pub fn lit_byyearday() -> (r: [u8; 9])
    ensures
        r@ == kw_byyearday(),
{
    let a: [u8; 9] = [66u8, 89u8, 89u8, 69u8, 65u8, 82u8, 68u8, 65u8, 89u8];
    proof {
        assert(a@ =~= kw_byyearday());
    }
    a
}

/// `BYWEEKNO`
pub open spec fn kw_byweekno() -> Seq<u8> {
    seq![66u8, 89u8, 87u8, 69u8, 69u8, 75u8, 78u8, 79u8]
}

/// `BYWEEKNO`
pub fn lit_byweekno() -> (r: [u8; 8])
    ensures
        r@ == kw_byweekno(),
{
    let a: [u8; 8] = [66u8, 89u8, 87u8, 69u8, 69u8, 75u8, 78u8, 79u8];
    proof {
        assert(a@ =~= kw_byweekno());
    }
    a
}

/// `BYMONTH`
pub open spec fn kw_bymonth() -> Seq<u8> {
    seq![66u8, 89u8, 77u8, 79u8, 78u8, 84u8, 72u8]
}

/// `BYMONTH`
pub fn lit_bymonth() -> (r: [u8; 7])
    ensures
        r@ == kw_bymonth(),
{
    let a: [u8; 7] = [66u8, 89u8, 77u8, 79u8, 78u8, 84u8, 72u8];
    proof {
        assert(a@ =~= kw_bymonth());
    }
    a
}

/// `BYSETPOS`
pub open spec fn kw_bysetpos() -> Seq<u8> {
    seq![66u8, 89u8, 83u8, 69u8, 84u8, 80u8, 79u8, 83u8]
}

/// `BYSETPOS`
pub fn lit_bysetpos() -> (r: [u8; 8])
    ensures
        r@ == kw_bysetpos(),
{
    let a: [u8; 8] = [66u8, 89u8, 83u8, 69u8, 84u8, 80u8, 79u8, 83u8];
    proof {
        assert(a@ =~= kw_bysetpos());
    }
    a
}

/// `WKST`
pub open spec fn kw_wkst() -> Seq<u8> {
    seq![87u8, 75u8, 83u8, 84u8]
}

/// `WKST`
pub fn lit_wkst() -> (r: [u8; 4])
    ensures
        r@ == kw_wkst(),
{
    let a: [u8; 4] = [87u8, 75u8, 83u8, 84u8];
    proof {
        assert(a@ =~= kw_wkst());
    }
    a
}

/// `SU`
pub open spec fn kw_su() -> Seq<u8> {
    seq![83u8, 85u8]
}

/// `SU`
pub fn lit_su() -> (r: [u8; 2])
    ensures
        r@ == kw_su(),
{
    let a: [u8; 2] = [83u8, 85u8];
    proof {
        assert(a@ =~= kw_su());
    }
    a
}

/// `MO`
pub open spec fn kw_mo() -> Seq<u8> {
    seq![77u8, 79u8]
}

/// `MO`
pub fn lit_mo() -> (r: [u8; 2])
    ensures
        r@ == kw_mo(),
{
    let a: [u8; 2] = [77u8, 79u8];
    proof {
        assert(a@ =~= kw_mo());
    }
    a
}

/// `TU`
pub open spec fn kw_tu() -> Seq<u8> {
    seq![84u8, 85u8]
}

/// `TU`
pub fn lit_tu() -> (r: [u8; 2])
    ensures
        r@ == kw_tu(),
{
    let a: [u8; 2] = [84u8, 85u8];
    proof {
        assert(a@ =~= kw_tu());
    }
    a
}

/// `WE`
pub open spec fn kw_we() -> Seq<u8> {
    seq![87u8, 69u8]
}

/// `WE`
pub fn lit_we() -> (r: [u8; 2])
    ensures
        r@ == kw_we(),
{
    let a: [u8; 2] = [87u8, 69u8];
    proof {
        assert(a@ =~= kw_we());
    }
    a
}

/// `TH`
pub open spec fn kw_th() -> Seq<u8> {
    seq![84u8, 72u8]
}

/// `TH`
pub fn lit_th() -> (r: [u8; 2])
    ensures
        r@ == kw_th(),
{
    let a: [u8; 2] = [84u8, 72u8];
    proof {
        assert(a@ =~= kw_th());
    }
    a
}

/// `FR`
pub open spec fn kw_fr() -> Seq<u8> {
    seq![70u8, 82u8]
}

/// `FR`
pub fn lit_fr() -> (r: [u8; 2])
    ensures
        r@ == kw_fr(),
{
    let a: [u8; 2] = [70u8, 82u8];
    proof {
        assert(a@ =~= kw_fr());
    }
    a
}

/// `SA`
pub open spec fn kw_sa() -> Seq<u8> {
    seq![83u8, 65u8]
}

/// `SA`
pub fn lit_sa() -> (r: [u8; 2])
    ensures
        r@ == kw_sa(),
{
    let a: [u8; 2] = [83u8, 65u8];
    proof {
        assert(a@ =~= kw_sa());
    }
    a
}

} // verus!
