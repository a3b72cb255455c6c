//! The question section: domain names as length-prefixed labels, query type
//! and query class, and the whole-message decoder that reads the header and
//! then exactly as many questions as it declares.
use vstd::prelude::*;

use crate::DecodeError;
use crate::header::Header;
use crate::header::be_u16;
use crate::header::be_word;
use crate::header::spec_parse_header;

verus! {

/// The record type a question asks for. Only address records (wire value 1)
/// are recognized; any other value is rejected as `InvalidQType`.
#[derive(Debug, Clone, Copy, PartialEq, Eq, Structural)]
pub enum QType {
    A,
}

impl QType {
    /// The exact mapping from a wire value to a query type.
    pub open spec fn spec_try_from(kind: u16) -> Result<QType, DecodeError> {
        if kind == 1 {
            Ok(QType::A)
        } else {
            Err(DecodeError::InvalidQType(kind))
        }
    }

    pub fn try_from(kind: u16) -> (r: Result<QType, DecodeError>)
        ensures
            r == QType::spec_try_from(kind),
    {
        if kind == 1 {
            Ok(QType::A)
        } else {
            Err(DecodeError::InvalidQType(kind))
        }
    }
}

/// The addressing class a question asks in. Only the Internet class (wire
/// value 1) is recognized; any other value is rejected as `InvalidQClass`.
#[derive(Debug, Clone, Copy, PartialEq, Eq, Structural)]
pub enum QClass {
    Internet,
}

impl QClass {
    /// The exact mapping from a wire value to a query class.
    pub open spec fn spec_try_from(class: u16) -> Result<QClass, DecodeError> {
        if class == 1 {
            Ok(QClass::Internet)
        } else {
            Err(DecodeError::InvalidQClass(class))
        }
    }

    pub fn try_from(class: u16) -> (r: Result<QClass, DecodeError>)
        ensures
            r == QClass::spec_try_from(class),
    {
        if class == 1 {
            Ok(QClass::Internet)
        } else {
            Err(DecodeError::InvalidQClass(class))
        }
    }
}

/// One decoded question: the domain name as its labels in order (no trailing
/// empty element; the empty sequence is the root name), the query type and
/// the query class.
#[derive(Debug)]
pub struct Question {
    pub name: Vec<String>,
    pub qtype: QType,
    pub qclass: QClass,
}

/// The mathematical value of a `Question`: each label as its sequence of
/// characters.
#[verifier::ext_equal]
pub struct QuestionModel {
    pub name: Seq<Seq<char>>,
    pub qtype: QType,
    pub qclass: QClass,
}

/// The character sequences of a sequence of labels.
pub open spec fn labels_view(labels: Seq<String>) -> Seq<Seq<char>> {
    labels.map(|i: int, s: String| s@)
}

impl View for Question {
    type V = QuestionModel;

    open spec fn view(&self) -> QuestionModel {
        QuestionModel { name: labels_view(self.name@), qtype: self.qtype, qclass: self.qclass }
    }
}

/// One decoded message: the header and the question records in the order
/// they stood in the buffer.
#[derive(Debug)]
pub struct Message {
    pub header: Header,
    pub questions: Vec<Question>,
}

/// The mathematical value of a `Message`.
#[verifier::ext_equal]
pub struct MessageModel {
    pub header: Header,
    pub questions: Seq<QuestionModel>,
}

/// The models of a sequence of questions.
pub open spec fn questions_view(questions: Seq<Question>) -> Seq<QuestionModel> {
    questions.map(|i: int, q: Question| q@)
}

impl View for Message {
    type V = MessageModel;

    open spec fn view(&self) -> MessageModel {
        MessageModel { header: self.header, questions: questions_view(self.questions@) }
    }
}

/// The characters of a byte sequence read as UTF-8 text, or `None` where the
/// bytes are not valid UTF-8.
pub uninterp spec fn utf8_decode(bytes: Seq<u8>) -> Option<Seq<char>>;

/// Relies on `String::from_utf8`: it succeeds exactly when the bytes are
/// valid UTF-8, and the characters of the result are a function of the bytes
/// alone.
#[verifier::external_body]
fn label_to_string(bytes: Vec<u8>) -> (r: Option<String>)
    ensures
        r is Some <==> utf8_decode(bytes@) is Some,
        r matches Some(s) ==> utf8_decode(bytes@) == Some(s@),
{
    String::from_utf8(bytes).ok()
}

/// What decoding a domain name at position `pos` yields: the labels in
/// order and the position just past the terminating zero byte. A zero length
/// byte ends the name; any other length byte introduces that many bytes of
/// UTF-8 label text. Running out of bytes is `UnexpectedEof`; label bytes
/// that are not UTF-8 are `InvalidLabelEncoding`.
pub open spec fn spec_parse_name(b: Seq<u8>, pos: int) -> Result<
    (Seq<Seq<char>>, int),
    DecodeError,
>
    decreases b.len() - pos,
{
    if pos < 0 || pos >= b.len() {
        Err(DecodeError::UnexpectedEof)
    } else if b[pos] == 0 {
        Ok((Seq::empty(), pos + 1))
    } else if pos + 1 + b[pos] > b.len() {
        Err(DecodeError::UnexpectedEof)
    } else {
        match utf8_decode(b.subrange(pos + 1, pos + 1 + b[pos])) {
            None => Err(DecodeError::InvalidLabelEncoding),
            Some(chars) => match spec_parse_name(b, pos + 1 + b[pos]) {
                Ok(rest) => Ok((seq![chars] + rest.0, rest.1)),
                Err(e) => Err(e),
            },
        }
    }
}

/// The result of a name or question-sequence decode with `prefix` prepended
/// to what a successful decode yields. Errors pass through.
pub open spec fn with_prefix<T>(prefix: Seq<T>, r: Result<(Seq<T>, int), DecodeError>) -> Result<
    (Seq<T>, int),
    DecodeError,
> {
    match r {
        Ok(p) => Ok((prefix + p.0, p.1)),
        Err(e) => Err(e),
    }
}

proof fn lemma_with_prefix_empty<T>(r: Result<(Seq<T>, int), DecodeError>)
    ensures
        with_prefix(Seq::<T>::empty(), r) == r,
{
    match r {
        Ok(p) => {
            assert(Seq::<T>::empty() + p.0 =~= p.0);
        },
        Err(_) => {},
    }
}

proof fn lemma_with_prefix_assoc<T>(p1: Seq<T>, p2: Seq<T>, r: Result<(Seq<T>, int), DecodeError>)
    ensures
        with_prefix(p1, with_prefix(p2, r)) == with_prefix(p1 + p2, r),
{
    match r {
        Ok(p) => {
            assert(p1 + (p2 + p.0) =~= (p1 + p2) + p.0);
        },
        Err(_) => {},
    }
}

proof fn lemma_labels_view_push(labels: Seq<String>, s: String)
    ensures
        labels_view(labels.push(s)) == labels_view(labels) + seq![s@],
{
    assert(labels_view(labels.push(s)) =~= labels_view(labels) + seq![s@]);
}

proof fn lemma_questions_view_push(questions: Seq<Question>, q: Question)
    ensures
        questions_view(questions.push(q)) == questions_view(questions) + seq![q@],
{
    assert(questions_view(questions.push(q)) =~= questions_view(questions) + seq![q@]);
}

/// Decodes one domain name starting at `pos`, returning the labels and the
/// position just past the terminating zero byte.
fn parse_name(buf: &[u8], pos: usize) -> (r: Result<(Vec<String>, usize), DecodeError>)
    requires
        pos <= buf@.len(),
    ensures
        r matches Ok(p) ==> {
            &&& spec_parse_name(buf@, pos as int) == Ok::<(Seq<Seq<char>>, int), DecodeError>(
                (labels_view(p.0@), p.1 as int),
            )
            &&& pos <= p.1 <= buf@.len()
        },
        r matches Err(e) ==> spec_parse_name(buf@, pos as int) == Err::<
            (Seq<Seq<char>>, int),
            DecodeError,
        >(e),
{
    let ghost b = buf@;
    let mut labels: Vec<String> = Vec::new();
    let mut cur: usize = pos;
    proof {
        assert(labels_view(labels@) =~= Seq::<Seq<char>>::empty());
        lemma_with_prefix_empty(spec_parse_name(b, cur as int));
    }
    loop
        invariant
            pos <= cur <= b.len(),
            b == buf@,
            spec_parse_name(b, pos as int) == with_prefix(
                labels_view(labels@),
                spec_parse_name(b, cur as int),
            ),
        decreases b.len() - cur,
    {
        if cur >= buf.len() {
            return Err(DecodeError::UnexpectedEof);
        }
        let len_byte = buf[cur];
        if len_byte == 0 {
            proof {
                assert(labels_view(labels@) + Seq::<Seq<char>>::empty() =~= labels_view(labels@));
            }
            return Ok((labels, cur + 1));
        }
        let l = len_byte as usize;
        if l > buf.len() - (cur + 1) {
            return Err(DecodeError::UnexpectedEof);
        }
        let mut lab: Vec<u8> = Vec::new();
        let mut k: usize = 0;
        while k < l
            invariant
                k <= l,
                cur + 1 + l <= b.len() <= usize::MAX,
                b == buf@,
                lab@ == b.subrange(cur + 1, cur + 1 + k),
            decreases l - k,
        {
            lab.push(buf[cur + 1 + k]);
            proof {
                assert(lab@ =~= b.subrange(cur + 1, cur + 1 + (k + 1)));
            }
            k = k + 1;
        }
        match label_to_string(lab) {
            None => {
                return Err(DecodeError::InvalidLabelEncoding);
            },
            Some(s) => {
                proof {
                    assert(spec_parse_name(b, cur as int) == with_prefix(
                        seq![s@],
                        spec_parse_name(b, (cur + 1 + l) as int),
                    ));
                    lemma_with_prefix_assoc(
                        labels_view(labels@),
                        seq![s@],
                        spec_parse_name(b, (cur + 1 + l) as int),
                    );
                    lemma_labels_view_push(labels@, s);
                }
                labels.push(s);
                cur = cur + 1 + l;
            },
        }
    }
}

/// What decoding one question at position `pos` yields: the name, then two
/// bytes of query type, then two bytes of query class, each validated as it
/// is read, and the position just past the question.
pub open spec fn spec_parse_question(b: Seq<u8>, pos: int) -> Result<
    (QuestionModel, int),
    DecodeError,
> {
    match spec_parse_name(b, pos) {
        Err(e) => Err(e),
        Ok((name, p)) => if p + 2 > b.len() {
            Err(DecodeError::UnexpectedEof)
        } else {
            match QType::spec_try_from(be_word(b[p], b[p + 1])) {
                Err(e) => Err(e),
                Ok(qtype) => if p + 4 > b.len() {
                    Err(DecodeError::UnexpectedEof)
                } else {
                    match QClass::spec_try_from(be_word(b[p + 2], b[p + 3])) {
                        Err(e) => Err(e),
                        Ok(qclass) => Ok((QuestionModel { name, qtype, qclass }, p + 4)),
                    }
                },
            }
        },
    }
}

/// Decodes one question starting at `pos`, returning it and the position
/// just past its query-class bytes.
fn parse_question(buf: &[u8], pos: usize) -> (r: Result<(Question, usize), DecodeError>)
    requires
        pos <= buf@.len(),
    ensures
        r matches Ok(p) ==> {
            &&& spec_parse_question(buf@, pos as int) == Ok::<(QuestionModel, int), DecodeError>(
                (p.0@, p.1 as int),
            )
            &&& pos <= p.1 <= buf@.len()
        },
        r matches Err(e) ==> spec_parse_question(buf@, pos as int) == Err::<
            (QuestionModel, int),
            DecodeError,
        >(e),
{
    let (name, p) = match parse_name(buf, pos) {
        Ok(t) => t,
        Err(e) => return Err(e),
    };
    if buf.len() - p < 2 {
        return Err(DecodeError::UnexpectedEof);
    }
    let qtype = match QType::try_from(be_u16(buf[p], buf[p + 1])) {
        Ok(t) => t,
        Err(e) => return Err(e),
    };
    if buf.len() - p < 4 {
        return Err(DecodeError::UnexpectedEof);
    }
    let qclass = match QClass::try_from(be_u16(buf[p + 2], buf[p + 3])) {
        Ok(c) => c,
        Err(e) => return Err(e),
    };
    Ok((Question { name, qtype, qclass }, p + 4))
}

/// What decoding `n` consecutive questions at position `pos` yields: their
/// models in buffer order and the position just past the last one. Zero
/// questions always succeed and consume nothing.
pub open spec fn spec_parse_questions(b: Seq<u8>, pos: int, n: int) -> Result<
    (Seq<QuestionModel>, int),
    DecodeError,
>
    decreases n,
{
    if n <= 0 {
        Ok((Seq::empty(), pos))
    } else {
        match spec_parse_question(b, pos) {
            Err(e) => Err(e),
            Ok((q, p)) => match spec_parse_questions(b, p, n - 1) {
                Err(e) => Err(e),
                Ok((qs, end)) => Ok((seq![q] + qs, end)),
            },
        }
    }
}

/// What decoding a whole datagram yields: the header from the first 12
/// bytes, then exactly as many questions as the header declares. Bytes after
/// the last question are left unread. A buffer shorter than the header
/// region is `UnexpectedEof`.
pub open spec fn spec_parse_message(b: Seq<u8>) -> Result<MessageModel, DecodeError> {
    if b.len() < 12 {
        Err(DecodeError::UnexpectedEof)
    } else {
        match spec_parse_header(b.subrange(0, 12)) {
            Err(e) => Err(e),
            Ok(header) => match spec_parse_questions(b, 12, header.questions as int) {
                Err(e) => Err(e),
                Ok((questions, _)) => Ok(MessageModel { header, questions }),
            },
        }
    }
}

impl Message {
    /// Decodes one datagram: the 12-byte header, then exactly as many
    /// questions as the header declares, in buffer order. Decoding stops at
    /// the first error; bytes after the last question are left unread.
    pub fn parse(buf: &[u8]) -> (r: Result<Message, DecodeError>)
        ensures
            r matches Ok(m) ==> spec_parse_message(buf@) == Ok::<MessageModel, DecodeError>(m@),
            r matches Ok(m) ==> m.questions@.len() == m.header.questions,
            r matches Err(e) ==> spec_parse_message(buf@) == Err::<MessageModel, DecodeError>(e),
    {
        if buf.len() < 12 {
            return Err(DecodeError::UnexpectedEof);
        }
        let header = match Header::parse(&buf[0..12]) {
            Ok(h) => h,
            Err(e) => return Err(e),
        };
        let ghost b = buf@;
        let n = header.questions;
        let mut questions: Vec<Question> = Vec::new();
        let mut pos: usize = 12;
        let mut i: u16 = 0;
        proof {
            assert(questions_view(questions@) =~= Seq::<QuestionModel>::empty());
            lemma_with_prefix_empty(spec_parse_questions(b, 12, n as int));
        }
        while i < n
            invariant
                12 <= pos <= b.len(),
                i <= n,
                b == buf@,
                n == header.questions,
                spec_parse_header(b.subrange(0, 12)) == Ok::<Header, DecodeError>(header),
                spec_parse_questions(b, 12, n as int) == with_prefix(
                    questions_view(questions@),
                    spec_parse_questions(b, pos as int, n - i),
                ),
            decreases n - i,
        {
            match parse_question(buf, pos) {
                Err(e) => {
                    return Err(e);
                },
                Ok((q, p)) => {
                    proof {
                        assert(spec_parse_questions(b, pos as int, n - i) == with_prefix(
                            seq![q@],
                            spec_parse_questions(b, p as int, n - (i + 1)),
                        ));
                        lemma_with_prefix_assoc(
                            questions_view(questions@),
                            seq![q@],
                            spec_parse_questions(b, p as int, n - (i + 1)),
                        );
                        lemma_questions_view_push(questions@, q);
                    }
                    questions.push(q);
                    pos = p;
                    i = i + 1;
                },
            }
        }
        proof {
            assert(questions_view(questions@) + Seq::<QuestionModel>::empty() =~= questions_view(
                questions@,
            ));
            lemma_question_count(b, 12, n as int);
        }
        Ok(Message { header, questions })
    }
}

/// Zero questions always decode successfully, consuming nothing: a message
/// whose header declares no questions parses even when unread bytes remain.
pub proof fn lemma_zero_questions(b: Seq<u8>, pos: int)
    ensures
        spec_parse_questions(b, pos, 0) == Ok::<(Seq<QuestionModel>, int), DecodeError>(
            (Seq::<QuestionModel>::empty(), pos),
        ),
{
}

/// A successful decode of `n` questions yields exactly `n` of them.
pub proof fn lemma_question_count(b: Seq<u8>, pos: int, n: int)
    ensures
        spec_parse_questions(b, pos, n) matches Ok(p) ==> p.0.len() == if n <= 0 {
            0
        } else {
            n
        },
    decreases n,
{
    if n > 0 {
        match spec_parse_question(b, pos) {
            Err(_) => {},
            Ok((q, p)) => {
                lemma_question_count(b, p, n - 1);
            },
        }
    }
}

/// A decoded message holds exactly as many questions, in buffer order, as
/// its header declares.
pub proof fn lemma_message_question_count(b: Seq<u8>)
    ensures
        spec_parse_message(b) matches Ok(m) ==> m.questions.len() == m.header.questions,
{
    if b.len() >= 12 {
        match spec_parse_header(b.subrange(0, 12)) {
            Err(_) => {},
            Ok(header) => {
                lemma_question_count(b, 12, header.questions as int);
            },
        }
    }
}

/// A label whose declared length runs past the end of the buffer makes the
/// name, and with it the whole question, decode to `UnexpectedEof`: no
/// partially filled question is ever produced.
pub proof fn lemma_truncated_label_eof(b: Seq<u8>, pos: int)
    requires
        0 <= pos < b.len(),
        b[pos] != 0,
        pos + 1 + b[pos] > b.len(),
    ensures
        spec_parse_name(b, pos) == Err::<(Seq<Seq<char>>, int), DecodeError>(
            DecodeError::UnexpectedEof,
        ),
        spec_parse_question(b, pos) == Err::<(QuestionModel, int), DecodeError>(
            DecodeError::UnexpectedEof,
        ),
{
}

} // verus!
