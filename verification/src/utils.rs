//! Status codes of the introspection interface and the texts of the failures
//! they stand for, the text of a failure of the native interface, and the
//! search for a method of a class by its name.
use vstd::prelude::*;

verus! {

/// `jni::errors::Error`, the failure of a service of the native interface.
/// It is carried as it comes: nothing of what it holds is read here, and all
/// that is asked of it is the text that its `Display` writes.
#[verifier::external_type_specification]
#[verifier::external_body]
pub struct ExJniError(jni::errors::Error);

/// A status code of the introspection interface. Zero reports success.
pub type JvmtiError = u32;

/// The character of one decimal digit.
pub open spec fn digit(d: nat) -> char {
    if d == 0 {
        '0'
    } else if d == 1 {
        '1'
    } else if d == 2 {
        '2'
    } else if d == 3 {
        '3'
    } else if d == 4 {
        '4'
    } else if d == 5 {
        '5'
    } else if d == 6 {
        '6'
    } else if d == 7 {
        '7'
    } else if d == 8 {
        '8'
    } else {
        '9'
    }
}

/// A natural number written in base ten, without leading zeros.
pub open spec fn decimal(n: nat) -> Seq<char>
    decreases n,
{
    if n < 10 {
        seq![digit(n)]
    } else {
        decimal(n / 10).push(digit(n % 10))
    }
}

/// An integer written in base ten, with a minus sign when it is negative.
pub open spec fn signed_decimal(n: int) -> Seq<char> {
    if n < 0 {
        seq!['-'] + decimal((-n) as nat)
    } else {
        decimal(n as nat)
    }
}

/// The text that reports a failed call of the introspection interface.
pub open spec fn jvmti_error_text(code: JvmtiError) -> Seq<char> {
    "Unexpected jvmti error: "@ + decimal(code as nat)
}

fn digit_text(d: u32) -> (text: &'static str)
    requires
        d < 10,
    ensures
        text@ == seq![digit(d as nat)],
{
    proof {
        reveal_strlit("0");
        reveal_strlit("1");
        reveal_strlit("2");
        reveal_strlit("3");
        reveal_strlit("4");
        reveal_strlit("5");
        reveal_strlit("6");
        reveal_strlit("7");
        reveal_strlit("8");
        reveal_strlit("9");
    }
    let text = if d == 0 {
        "0"
    } else if d == 1 {
        "1"
    } else if d == 2 {
        "2"
    } else if d == 3 {
        "3"
    } else if d == 4 {
        "4"
    } else if d == 5 {
        "5"
    } else if d == 6 {
        "6"
    } else if d == 7 {
        "7"
    } else if d == 8 {
        "8"
    } else {
        "9"
    };
    assert(text@ =~= seq![digit(d as nat)]);
    text
}

/// Writes `n` in base ten at the end of `text`.
pub fn append_decimal(text: &mut String, n: u32)
    ensures
        final(text)@ == old(text)@ + decimal(n as nat),
    decreases n,
{
    if n >= 10 {
        append_decimal(text, n / 10);
    }
    text.append(digit_text(n % 10));
    assert(text@ =~= old(text)@ + decimal(n as nat));
}

/// The failure that a status code of the introspection interface stands for.
pub fn jvmti_error_message(code: JvmtiError) -> (message: String)
    ensures
        message@ == jvmti_error_text(code),
{
    let mut message = String::from_str("Unexpected jvmti error: ");
    append_decimal(&mut message, code);
    message
}

/// Hands `res` on when the status reports success, and the failure's text
/// otherwise.
pub fn result_or_jvmti_err<T>(res: T, err_maybe: JvmtiError) -> (outcome: Result<T, String>)
    ensures
        err_maybe == 0 ==> outcome == Ok::<T, String>(res),
        err_maybe != 0 ==> outcome is Err && outcome->Err_0@ == jvmti_error_text(err_maybe),
{
    if err_maybe != 0 {
        return Err(jvmti_error_message(err_maybe));
    }
    Ok(res)
}

/// Turns the status of a call that yields nothing else into a result.
pub fn unit_or_jvmti_err(res: JvmtiError) -> (outcome: Result<(), String>)
    ensures
        res == 0 ==> outcome is Ok,
        res != 0 ==> outcome is Err && outcome->Err_0@ == jvmti_error_text(res),
{
    if res != 0 {
        return Err(jvmti_error_message(res));
    }
    Ok(())
}

/// The answer to the request for the name of one method of a class: the
/// status of the request, and the name where the request succeeded.
#[derive(Clone, Debug, PartialEq, Eq)]
pub struct MethodName {
    pub status: JvmtiError,
    pub name: String,
}

impl MethodName {
    /// Whether this answer shows that its method bears `name`.
    pub open spec fn names(self, name: Seq<char>) -> bool {
        self.status == 0 && self.name@ == name
    }
}

/// The text that reports that a class has no method of the name sought.
pub open spec fn method_not_found_text() -> Seq<char> {
    "Method not found"@
}

/// Finds the method called `name` among the methods of a class. `meth_ret`
/// is the status of the request for the methods, and `names` holds, method by
/// method and in their order, the answers to the requests for their names.
/// The result is the place of the first method that bears the name.
pub fn find_method(meth_ret: JvmtiError, names: &Vec<MethodName>, name: &str) -> (outcome: Result<
    usize,
    String,
>)
    ensures
        meth_ret != 0 ==> outcome is Err && outcome->Err_0@ == jvmti_error_text(meth_ret),
        meth_ret == 0 ==> match outcome {
            Ok(place) => {
                &&& place < names@.len()
                &&& names@[place as int].names(name@)
                &&& forall|i: int| 0 <= i < place ==> !names@[i].names(name@)
            },
            Err(message) => {
                &&& message@ == method_not_found_text()
                &&& forall|i: int| 0 <= i < names@.len() ==> !names@[i].names(name@)
            },
        },
{
    if meth_ret != 0 {
        return Err(jvmti_error_message(meth_ret));
    }
    let wanted = String::from_str(name);
    let mut place: usize = 0;
    while place < names.len()
        invariant
            meth_ret == 0,
            place <= names@.len(),
            wanted@ == name@,
            forall|i: int| 0 <= i < place ==> !names@[i].names(name@),
        decreases names@.len() - place,
    {
        if names[place].status == 0 && names[place].name == wanted {
            return Ok(place);
        }
        place = place + 1;
    }
    Err(String::from_str("Method not found"))
}

/// The text of a failure of the native interface: what its `Display`
/// writes.
pub fn failure_text(failure: &jni::errors::Error) -> (text: String)
    ensures
        vstd::string::to_string_from_display_ensures::<jni::errors::Error>(failure, text),
{
    failure.to_string()
}

/// Decides what follows an attempt to throw an exception: nothing where it
/// was thrown, and the text of a fatal error where it could not be.
pub fn throw(thrown: &Result<(), jni::errors::Error>) -> (fatal: Option<String>)
    ensures
        match *thrown {
            Ok(_) => fatal is None,
            Err(failure) => fatal is Some && vstd::string::to_string_from_display_ensures::<
                jni::errors::Error,
            >(&failure, fatal->0),
        },
{
    match thrown {
        Ok(_) => None,
        Err(failure) => Some(failure_text(failure)),
    }
}

} // verus!
