//! The handful of byte-string constants the protocol core speaks:
//! method tokens, well-known header names and values, status lines, the
//! version tag and the routed path prefixes. Each constant is a spec
//! sequence together with a verified constructor of the same bytes.

use vstd::prelude::*;

verus! {

/// `"GET"`
pub open spec fn tok_get() -> Seq<u8> {
    seq![71u8, 69, 84]
}

/// `"GET"`, as a fresh vector.
pub fn tok_get_vec() -> (r: Vec<u8>)
    ensures
        r@ == tok_get(),
{
    let mut r: Vec<u8> = Vec::new();
    r.push(71);
    r.push(69);
    r.push(84);
    assert(r@ =~= tok_get());
    r
}

/// `"get"`
pub open spec fn tok_get_lower() -> Seq<u8> {
    seq![103u8, 101, 116]
}

/// `"get"`, as a fresh vector.
pub fn tok_get_lower_vec() -> (r: Vec<u8>)
    ensures
        r@ == tok_get_lower(),
{
    let mut r: Vec<u8> = Vec::new();
    r.push(103);
    r.push(101);
    r.push(116);
    assert(r@ =~= tok_get_lower());
    r
}

/// `"POST"`
pub open spec fn tok_post() -> Seq<u8> {
    seq![80u8, 79, 83, 84]
}

/// `"POST"`, as a fresh vector.
pub fn tok_post_vec() -> (r: Vec<u8>)
    ensures
        r@ == tok_post(),
{
    let mut r: Vec<u8> = Vec::new();
    r.push(80);
    r.push(79);
    r.push(83);
    r.push(84);
    assert(r@ =~= tok_post());
    r
}

/// `"post"`
pub open spec fn tok_post_lower() -> Seq<u8> {
    seq![112u8, 111, 115, 116]
}

/// `"post"`, as a fresh vector.
pub fn tok_post_lower_vec() -> (r: Vec<u8>)
    ensures
        r@ == tok_post_lower(),
{
    let mut r: Vec<u8> = Vec::new();
    r.push(112);
    r.push(111);
    r.push(115);
    r.push(116);
    assert(r@ =~= tok_post_lower());
    r
}

/// `"content-length"`
pub open spec fn name_content_length() -> Seq<u8> {
    seq![99u8, 111, 110, 116, 101, 110, 116, 45, 108, 101, 110, 103, 116, 104]
}

/// `"content-length"`, as a fresh vector.
pub fn name_content_length_vec() -> (r: Vec<u8>)
    ensures
        r@ == name_content_length(),
{
    let mut r: Vec<u8> = Vec::new();
    r.push(99);
    r.push(111);
    r.push(110);
    r.push(116);
    r.push(101);
    r.push(110);
    r.push(116);
    r.push(45);
    r.push(108);
    r.push(101);
    r.push(110);
    r.push(103);
    r.push(116);
    r.push(104);
    assert(r@ =~= name_content_length());
    r
}

/// `"user-agent"`
pub open spec fn name_user_agent() -> Seq<u8> {
    seq![117u8, 115, 101, 114, 45, 97, 103, 101, 110, 116]
}

/// `"user-agent"`, as a fresh vector.
pub fn name_user_agent_vec() -> (r: Vec<u8>)
    ensures
        r@ == name_user_agent(),
{
    let mut r: Vec<u8> = Vec::new();
    r.push(117);
    r.push(115);
    r.push(101);
    r.push(114);
    r.push(45);
    r.push(97);
    r.push(103);
    r.push(101);
    r.push(110);
    r.push(116);
    assert(r@ =~= name_user_agent());
    r
}

/// `"accept-encoding"`
pub open spec fn name_accept_encoding() -> Seq<u8> {
    seq![97u8, 99, 99, 101, 112, 116, 45, 101, 110, 99, 111, 100, 105, 110, 103]
}

/// `"accept-encoding"`, as a fresh vector.
pub fn name_accept_encoding_vec() -> (r: Vec<u8>)
    ensures
        r@ == name_accept_encoding(),
{
    let mut r: Vec<u8> = Vec::new();
    r.push(97);
    r.push(99);
    r.push(99);
    r.push(101);
    r.push(112);
    r.push(116);
    r.push(45);
    r.push(101);
    r.push(110);
    r.push(99);
    r.push(111);
    r.push(100);
    r.push(105);
    r.push(110);
    r.push(103);
    assert(r@ =~= name_accept_encoding());
    r
}

/// `"content-encoding"`
pub open spec fn name_content_encoding() -> Seq<u8> {
    seq![99u8, 111, 110, 116, 101, 110, 116, 45, 101, 110, 99, 111, 100, 105, 110, 103]
}

/// `"content-encoding"`, as a fresh vector.
pub fn name_content_encoding_vec() -> (r: Vec<u8>)
    ensures
        r@ == name_content_encoding(),
{
    let mut r: Vec<u8> = Vec::new();
    r.push(99);
    r.push(111);
    r.push(110);
    r.push(116);
    r.push(101);
    r.push(110);
    r.push(116);
    r.push(45);
    r.push(101);
    r.push(110);
    r.push(99);
    r.push(111);
    r.push(100);
    r.push(105);
    r.push(110);
    r.push(103);
    assert(r@ =~= name_content_encoding());
    r
}

/// `"content-type"`
pub open spec fn name_content_type() -> Seq<u8> {
    seq![99u8, 111, 110, 116, 101, 110, 116, 45, 116, 121, 112, 101]
}

/// `"content-type"`, as a fresh vector.
pub fn name_content_type_vec() -> (r: Vec<u8>)
    ensures
        r@ == name_content_type(),
{
    let mut r: Vec<u8> = Vec::new();
    r.push(99);
    r.push(111);
    r.push(110);
    r.push(116);
    r.push(101);
    r.push(110);
    r.push(116);
    r.push(45);
    r.push(116);
    r.push(121);
    r.push(112);
    r.push(101);
    assert(r@ =~= name_content_type());
    r
}

/// `"text/plain"`
pub open spec fn val_text_plain() -> Seq<u8> {
    seq![116u8, 101, 120, 116, 47, 112, 108, 97, 105, 110]
}

/// `"text/plain"`, as a fresh vector.
pub fn val_text_plain_vec() -> (r: Vec<u8>)
    ensures
        r@ == val_text_plain(),
{
    let mut r: Vec<u8> = Vec::new();
    r.push(116);
    r.push(101);
    r.push(120);
    r.push(116);
    r.push(47);
    r.push(112);
    r.push(108);
    r.push(97);
    r.push(105);
    r.push(110);
    assert(r@ =~= val_text_plain());
    r
}

/// `"application/octet-stream"`
pub open spec fn val_octet_stream() -> Seq<u8> {
    seq![97u8, 112, 112, 108, 105, 99, 97, 116, 105, 111, 110, 47, 111, 99, 116, 101, 116, 45, 115, 116, 114, 101, 97, 109]
}

/// `"application/octet-stream"`, as a fresh vector.
pub fn val_octet_stream_vec() -> (r: Vec<u8>)
    ensures
        r@ == val_octet_stream(),
{
    let mut r: Vec<u8> = Vec::new();
    r.push(97);
    r.push(112);
    r.push(112);
    r.push(108);
    r.push(105);
    r.push(99);
    r.push(97);
    r.push(116);
    r.push(105);
    r.push(111);
    r.push(110);
    r.push(47);
    r.push(111);
    r.push(99);
    r.push(116);
    r.push(101);
    r.push(116);
    r.push(45);
    r.push(115);
    r.push(116);
    r.push(114);
    r.push(101);
    r.push(97);
    r.push(109);
    assert(r@ =~= val_octet_stream());
    r
}

/// `"gzip"`
pub open spec fn val_gzip() -> Seq<u8> {
    seq![103u8, 122, 105, 112]
}

/// `"gzip"`, as a fresh vector.
pub fn val_gzip_vec() -> (r: Vec<u8>)
    ensures
        r@ == val_gzip(),
{
    let mut r: Vec<u8> = Vec::new();
    r.push(103);
    r.push(122);
    r.push(105);
    r.push(112);
    assert(r@ =~= val_gzip());
    r
}

/// `"200 OK"`
pub open spec fn status_ok() -> Seq<u8> {
    seq![50u8, 48, 48, 32, 79, 75]
}

/// `"200 OK"`, as a fresh vector.
pub fn status_ok_vec() -> (r: Vec<u8>)
    ensures
        r@ == status_ok(),
{
    let mut r: Vec<u8> = Vec::new();
    r.push(50);
    r.push(48);
    r.push(48);
    r.push(32);
    r.push(79);
    r.push(75);
    assert(r@ =~= status_ok());
    r
}

/// `"201 Created"`
pub open spec fn status_created() -> Seq<u8> {
    seq![50u8, 48, 49, 32, 67, 114, 101, 97, 116, 101, 100]
}

/// `"201 Created"`, as a fresh vector.
pub fn status_created_vec() -> (r: Vec<u8>)
    ensures
        r@ == status_created(),
{
    let mut r: Vec<u8> = Vec::new();
    r.push(50);
    r.push(48);
    r.push(49);
    r.push(32);
    r.push(67);
    r.push(114);
    r.push(101);
    r.push(97);
    r.push(116);
    r.push(101);
    r.push(100);
    assert(r@ =~= status_created());
    r
}

/// `"404 Not Found"`
pub open spec fn status_not_found() -> Seq<u8> {
    seq![52u8, 48, 52, 32, 78, 111, 116, 32, 70, 111, 117, 110, 100]
}

/// `"404 Not Found"`, as a fresh vector.
pub fn status_not_found_vec() -> (r: Vec<u8>)
    ensures
        r@ == status_not_found(),
{
    let mut r: Vec<u8> = Vec::new();
    r.push(52);
    r.push(48);
    r.push(52);
    r.push(32);
    r.push(78);
    r.push(111);
    r.push(116);
    r.push(32);
    r.push(70);
    r.push(111);
    r.push(117);
    r.push(110);
    r.push(100);
    assert(r@ =~= status_not_found());
    r
}

/// `"HTTP/1.1"`
pub open spec fn http_version() -> Seq<u8> {
    seq![72u8, 84, 84, 80, 47, 49, 46, 49]
}

/// `"HTTP/1.1"`, as a fresh vector.
pub fn http_version_vec() -> (r: Vec<u8>)
    ensures
        r@ == http_version(),
{
    let mut r: Vec<u8> = Vec::new();
    r.push(72);
    r.push(84);
    r.push(84);
    r.push(80);
    r.push(47);
    r.push(49);
    r.push(46);
    r.push(49);
    assert(r@ =~= http_version());
    r
}

/// `"/"`
pub open spec fn path_root() -> Seq<u8> {
    seq![47u8]
}

/// `"/"`, as a fresh vector.
pub fn path_root_vec() -> (r: Vec<u8>)
    ensures
        r@ == path_root(),
{
    let mut r: Vec<u8> = Vec::new();
    r.push(47);
    assert(r@ =~= path_root());
    r
}

/// `"/user-agent"`
pub open spec fn path_user_agent() -> Seq<u8> {
    seq![47u8, 117, 115, 101, 114, 45, 97, 103, 101, 110, 116]
}

/// `"/user-agent"`, as a fresh vector.
pub fn path_user_agent_vec() -> (r: Vec<u8>)
    ensures
        r@ == path_user_agent(),
{
    let mut r: Vec<u8> = Vec::new();
    r.push(47);
    r.push(117);
    r.push(115);
    r.push(101);
    r.push(114);
    r.push(45);
    r.push(97);
    r.push(103);
    r.push(101);
    r.push(110);
    r.push(116);
    assert(r@ =~= path_user_agent());
    r
}

/// `"/echo"`
pub open spec fn path_echo_prefix() -> Seq<u8> {
    seq![47u8, 101, 99, 104, 111]
}

/// `"/echo"`, as a fresh vector.
pub fn path_echo_prefix_vec() -> (r: Vec<u8>)
    ensures
        r@ == path_echo_prefix(),
{
    let mut r: Vec<u8> = Vec::new();
    r.push(47);
    r.push(101);
    r.push(99);
    r.push(104);
    r.push(111);
    assert(r@ =~= path_echo_prefix());
    r
}

/// `"/files"`
pub open spec fn path_files_prefix() -> Seq<u8> {
    seq![47u8, 102, 105, 108, 101, 115]
}

/// `"/files"`, as a fresh vector.
pub fn path_files_prefix_vec() -> (r: Vec<u8>)
    ensures
        r@ == path_files_prefix(),
{
    let mut r: Vec<u8> = Vec::new();
    r.push(47);
    r.push(102);
    r.push(105);
    r.push(108);
    r.push(101);
    r.push(115);
    assert(r@ =~= path_files_prefix());
    r
}

} // verus!
