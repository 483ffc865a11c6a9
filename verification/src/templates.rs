//! The fixed pieces of the assembly document and the small templates that
//! every lowering shares.

use vstd::prelude::*;
use vstd::string::*;
use crate::ast::BinOp;
use crate::error::CompileError;
use crate::text::{decimal, decimal_text};

verus! {

/// Opening of the instruction region: the entry declaration, the helper
/// routines that render and append text at run time, and the entry symbol.
pub const TEXT_HEAD: &'static str = "section .text
global _start

print_number:
    ; Print a number from the stack
    pop rax      ; Return address
    pop rdi      ; Number to print
    push rax     ; Save return address
    mov rsi, buffer
    mov rax, rdi
    mov rbx, 10
    ; Handle negative numbers
    test rax, rax
    jns .positive
    neg rax
    mov byte [rsi], '-'
    inc rsi
.positive:
    ; Convert to string (reversed)
    mov rcx, buffer_end
    mov byte [rcx], 10   ; Newline
    dec rcx
.digit_loop:
    xor rdx, rdx
    div rbx
    add dl, '0'
    mov [rcx], dl
    dec rcx
    test rax, rax
    jnz .digit_loop
    ; Calculate string length
    lea rsi, [rcx+1]
    mov rdx, buffer_end
    sub rdx, rsi
    inc rdx       ; Include newline
    ; Print the number
    mov rax, 1    ; sys_write
    mov rdi, 1    ; stdout
    syscall
    ret

append_string:
    ; Append a string (in RSI) to buffer (in RDI)
    ; RDI is the current position in buffer
    ; RCX is the total length so far
.loop:
    mov al, [rsi]
    test al, al
    jz .done
    mov [rdi], al
    inc rsi
    inc rdi
    inc rcx
    jmp .loop
.done:
    ret

append_string_without_newline:
    ; Append a string (in RSI) to buffer (in RDI) but skip newlines
    ; RDI is the current position in buffer
    ; RCX is the total length so far
.loop:
    mov al, [rsi]
    test al, al
    jz .done
    cmp al, 10    ; Check for newline
    je .skip
    mov [rdi], al
    inc rdi
    inc rcx
.skip:
    inc rsi
    jmp .loop
.done:
    ret

append_number:
    ; Append a number (in RAX) to buffer (in RDI)
    ; RAX is the number to append
    ; RDI is the current position in buffer
    ; RCX is the total length so far
    push rbx
    push rdx
    push r8
    push r9
    push rsi
    ; Handle negative numbers
    test rax, rax
    jns .positive
    neg rax
    mov byte [rdi], '-'
    inc rdi
    inc rcx
.positive:
    mov rsi, rax
    mov rax, rsi
    ; Count digits
    xor rdx, rdx
    mov rbx, 10
    mov r8, rdi      ; Save buffer position
    mov r9, 0        ; Digit counter
.count_loop:
    inc r9
    xor rdx, rdx
    div rbx
    test rax, rax
    jnz .count_loop
    ; r9 now has digit count, rsi has original number
    add r8, r9       ; r8 now points to end of string
    dec r8
    mov rax, rsi
.convert_loop:
    xor rdx, rdx
    div rbx
    add dl, '0'
    mov [r8], dl
    dec r8
    test rax, rax
    jnz .convert_loop
    ; Update buffer position and length
    add rdi, r9
    add rcx, r9
    ; Restore registers, but NOT rdi and rcx which need to be updated
    pop rsi
    pop r9
    pop r8
    pop rdx
    pop rbx
    ret

_start:
";

/// Opening of the literal region: the fixed words and the array
/// punctuation.
pub const DATA_HEAD: &'static str = "section .data
true_str db \"true\", 10, 0
false_str db \"false\", 10, 0
null_str db \"null\", 10, 0
array_open db \"[\", 0
array_close db \"]\", 10, 0
array_separator db \", \", 0
";

/// Opening of the storage region: the scratch buffers.
pub const BSS_HEAD: &'static str = "section .bss
buffer: resb 32
buffer_end: resb 1
str_buffer: resb 1024
";

/// Selects a write to standard output.
pub const WRITE_HEAD: &'static str = "    mov rax, 1          ; sys_write
    mov rdi, 1          ; stdout
";

/// Performs the selected system call and ends the statement's block.
pub const SYSCALL: &'static str = "    syscall

";

/// Clears the concatenation buffer and points at its start.
pub const BUFFER_RESET: &'static str = "    mov rdi, str_buffer  ; Destination buffer
    xor rcx, rcx         ; Reset counter
    xor rax, rax         ; Zero for stosb
    mov rcx, 1024        ; Buffer size
    cld                  ; Clear direction flag
    rep stosb           ; Fill buffer with zeros
    mov rdi, str_buffer  ; Reset destination buffer
    xor rcx, rcx         ; Reset counter

";

/// Terminates the concatenation buffer with a line break and writes it.
pub const BUFFER_FLUSH: &'static str = "    mov byte [rdi], 10   ; Add newline
    inc rdi
    inc rcx              ; Count the newline
    mov byte [rdi], 0    ; Add null terminator
    mov rax, 1           ; sys_write
    mov rdi, 1           ; stdout
    mov rsi, str_buffer  ; String buffer
    mov rdx, rcx         ; String length
    syscall

";

/// Appends the text at `rsi` to the concatenation buffer.
pub const APPEND_TEXT: &'static str = "    call append_string_without_newline
";

/// Appends the number in `rax` to the concatenation buffer.
pub const APPEND_NUMBER: &'static str = "    call append_number
";

/// Prints the number in `rax` on a line of its own.
pub const PRINT_RESULT: &'static str = "    push rax
    call print_number
    add rsp, 8

";

/// Ends the process with status zero.
pub const DEFAULT_EXIT: &'static str = "    ; Exit program
    mov rax, 60         ; sys_exit
    mov rdi, 0
    syscall

";

/// `a + b + c`.
pub(crate) fn join3(a: &str, b: &str, c: &str) -> (r: String)
    ensures
        r@ == a@ + b@ + c@,
{
    let mut r = String::from_str(a);
    r.append(b);
    r.append(c);
    r
}

/// `a + b + c + d`.
pub(crate) fn join4(a: &str, b: &str, c: &str, d: &str) -> (r: String)
    ensures
        r@ == a@ + b@ + c@ + d@,
{
    let mut r = String::from_str(a);
    r.append(b);
    r.append(c);
    r.append(d);
    r
}

/// `a + b + c + d + e`.
pub(crate) fn join5(a: &str, b: &str, c: &str, d: &str, e: &str) -> (r: String)
    ensures
        r@ == a@ + b@ + c@ + d@ + e@,
{
    let mut r = String::from_str(a);
    r.append(b);
    r.append(c);
    r.append(d);
    r.append(e);
    r
}

/// A label minted from a counter: the prefix, an underscore, the count.
pub open spec fn numbered(prefix: Seq<char>, n: u64) -> Seq<char> {
    prefix + "_"@ + decimal(n as int)
}

/// Mints a label from the counter and advances the counter. Fails, and
/// leaves the counter alone, when the counter cannot advance.
pub fn get_string_label(counter: &mut u64, prefix: &str) -> (r: Result<String, CompileError>)
    ensures
        *old(counter) == u64::MAX ==> r == Err::<String, CompileError>(
            CompileError::LabelsExhausted,
        ) && *final(counter) == *old(counter),
        *old(counter) < u64::MAX ==> *final(counter) == *old(counter) + 1 && (r matches Ok(label)
            && label@ == numbered(prefix@, *old(counter))),
{
    if *counter == u64::MAX {
        return Err(CompileError::LabelsExhausted);
    }
    let label = numbered_of(prefix, *counter);
    *counter = *counter + 1;
    Ok(label)
}

pub(crate) fn numbered_of(prefix: &str, n: u64) -> (r: String)
    ensures
        r@ == numbered(prefix@, n),
{
    let digits = decimal_text(n as i128);
    join3(prefix, "_", digits.as_str())
}

/// The line that defines a jump target.
pub open spec fn mark(label: Seq<char>) -> Seq<char> {
    label + ":\n"@
}

pub(crate) fn mark_of(label: &str) -> (r: String)
    ensures
        r@ == mark(label@),
{
    let mut r = String::from_str(label);
    r.append(":\n");
    r
}

/// The label under which a declared name's printable text is stored.
pub open spec fn var_label(name: Seq<char>, suffix: Option<Seq<char>>) -> Seq<char> {
    match suffix {
        Some(s) => "var_"@ + name + s,
        None => "var_"@ + name,
    }
}

pub open spec fn suffix_view(suffix: Option<&str>) -> Option<Seq<char>> {
    match suffix {
        Some(s) => Some(s@),
        None => None,
    }
}

pub fn get_var_label(name: &str, suffix: Option<&str>) -> (r: String)
    ensures
        r@ == var_label(name@, suffix_view(suffix)),
{
    let mut r = String::from_str("var_");
    r.append(name);
    match suffix {
        Some(s) => {
            r.append(s);
        },
        None => {},
    }
    r
}

/// The storage cell of a variable, by name.
pub open spec fn cell(name: Seq<char>) -> Seq<char> {
    "[var_mem_"@ + name + "]"@
}

pub(crate) fn cell_of(name: &str) -> (r: String)
    ensures
        r@ == cell(name@),
{
    join3("[var_mem_", name, "]")
}

/// The cell that points at a float variable's printable text.
pub open spec fn float_cell(name: Seq<char>) -> Seq<char> {
    "[var_mem_"@ + name + "_float]"@
}

pub(crate) fn float_cell_of(name: &str) -> (r: String)
    ensures
        r@ == float_cell(name@),
{
    join3("[var_mem_", name, "_float]")
}

/// A printable blob that ends in a line break and a terminator.
pub open spec fn line_blob(label: Seq<char>, body: Seq<char>) -> Seq<char> {
    label + " db \""@ + body + "\", 10, 0\n"@
}

pub(crate) fn line_blob_of(label: &str, body: &str) -> (r: String)
    ensures
        r@ == line_blob(label@, body@),
{
    join4(label, " db \"", body, "\", 10, 0\n")
}

/// A printable blob that ends in a terminator only.
pub open spec fn bare_blob(label: Seq<char>, body: Seq<char>) -> Seq<char> {
    label + " db \""@ + body + "\", 0\n"@
}

pub(crate) fn bare_blob_of(label: &str, body: &str) -> (r: String)
    ensures
        r@ == bare_blob(label@, body@),
{
    join4(label, " db \"", body, "\", 0\n")
}

/// A comment or instruction line made of a fixed lead and one operand.
pub open spec fn line(lead: Seq<char>, operand: Seq<char>) -> Seq<char> {
    lead + operand + "\n"@
}

pub(crate) fn line_of(lead: &str, operand: &str) -> (r: String)
    ensures
        r@ == line(lead@, operand@),
{
    join3(lead, operand, "\n")
}

/// Points `rsi` at a label or loads it from a cell.
pub open spec fn load_source(operand: Seq<char>) -> Seq<char> {
    line("    mov rsi, "@, operand)
}

pub(crate) fn load_source_of(operand: &str) -> (r: String)
    ensures
        r@ == load_source(operand@),
{
    line_of("    mov rsi, ", operand)
}

/// Loads `rax` with a number or from a cell.
pub open spec fn load_number(operand: Seq<char>) -> Seq<char> {
    line("    mov rax, "@, operand)
}

pub(crate) fn load_number_of(operand: &str) -> (r: String)
    ensures
        r@ == load_number(operand@),
{
    line_of("    mov rax, ", operand)
}

/// Loads `rdi` with an exit status or from a cell.
pub open spec fn load_status(operand: Seq<char>) -> Seq<char> {
    line("    mov rdi, "@, operand)
}

pub(crate) fn load_status_of(operand: &str) -> (r: String)
    ensures
        r@ == load_status(operand@),
{
    line_of("    mov rdi, ", operand)
}

/// Writes `len` bytes from a label to standard output.
pub open spec fn write_call(label: Seq<char>, len: nat) -> Seq<char> {
    WRITE_HEAD@ + load_source(label) + line("    mov rdx, "@, decimal(len as int)) + SYSCALL@
}

pub(crate) fn write_call_of(label: &str, len: u128) -> (r: String)
    requires
        len <= i128::MAX,
    ensures
        r@ == write_call(label@, len as nat),
{
    let source = load_source_of(label);
    let digits = decimal_text(len as i128);
    let length = line_of("    mov rdx, ", digits.as_str());
    join4(WRITE_HEAD, source.as_str(), length.as_str(), SYSCALL)
}

/// Reserves the storage cell of a variable.
pub open spec fn storage(name: Seq<char>) -> Seq<char> {
    "var_mem_"@ + name + ": resq 1  ; Memory for variable "@ + name + "\n"@
}

pub(crate) fn storage_of(name: &str) -> (r: String)
    ensures
        r@ == storage(name@),
{
    join5("var_mem_", name, ": resq 1  ; Memory for variable ", name, "\n")
}

/// Reserves the cell that points at a float variable's printable text.
pub open spec fn float_storage(name: Seq<char>) -> Seq<char> {
    "var_mem_"@ + name + "_float: resq 1  ; String rep for float "@ + name + "\n"@
}

pub(crate) fn float_storage_of(name: &str) -> (r: String)
    ensures
        r@ == float_storage(name@),
{
    join5("var_mem_", name, "_float: resq 1  ; String rep for float ", name, "\n")
}

/// Stores a number or an address in the cell of a variable.
pub open spec fn store(name: Seq<char>, operand: Seq<char>) -> Seq<char> {
    "    mov qword [var_mem_"@ + name + "], "@ + operand + "\n"@
}

pub(crate) fn store_of(name: &str, operand: &str) -> (r: String)
    ensures
        r@ == store(name@, operand@),
{
    join5("    mov qword [var_mem_", name, "], ", operand, "\n")
}

/// Stores an address in the cell that points at a float variable's text.
pub open spec fn float_store(name: Seq<char>, operand: Seq<char>) -> Seq<char> {
    "    mov qword [var_mem_"@ + name + "_float], "@ + operand + "\n"@
}

pub(crate) fn float_store_of(name: &str, operand: &str) -> (r: String)
    ensures
        r@ == float_store(name@, operand@),
{
    join5("    mov qword [var_mem_", name, "_float], ", operand, "\n")
}

/// Points `rsi` at the word for a truth value.
pub open spec fn truth_source(b: bool) -> Seq<char> {
    if b {
        "    mov rsi, true_str\n"@
    } else {
        "    mov rsi, false_str\n"@
    }
}

pub(crate) fn truth_source_of(b: bool) -> (r: &'static str)
    ensures
        r@ == truth_source(b),
{
    if b {
        "    mov rsi, true_str\n"
    } else {
        "    mov rsi, false_str\n"
    }
}

/// Loads `rax` with one for true and zero for false.
pub open spec fn truth_number(b: bool) -> Seq<char> {
    if b {
        "    mov rax, 1\n"@
    } else {
        "    mov rax, 0\n"@
    }
}

pub(crate) fn truth_number_of(b: bool) -> (r: &'static str)
    ensures
        r@ == truth_number(b),
{
    if b {
        "    mov rax, 1\n"
    } else {
        "    mov rax, 0\n"
    }
}

/// One or zero, as the digit that stands for a truth value.
pub open spec fn truth_digit(b: bool) -> Seq<char> {
    if b {
        "1"@
    } else {
        "0"@
    }
}

pub(crate) fn truth_digit_of(b: bool) -> (r: &'static str)
    ensures
        r@ == truth_digit(b),
{
    if b {
        "1"
    } else {
        "0"
    }
}

/// Points `rsi` at the word for a truth value and sets the length of the
/// word followed by a line break.
pub open spec fn truth_line(b: bool) -> Seq<char> {
    if b {
        "    mov rsi, true_str\n    mov rdx, 5       ; 'true' + newline\n"@
    } else {
        "    mov rsi, false_str\n    mov rdx, 6       ; 'false' + newline\n"@
    }
}

pub(crate) fn truth_line_of(b: bool) -> (r: &'static str)
    ensures
        r@ == truth_line(b),
{
    if b {
        "    mov rsi, true_str\n    mov rdx, 5       ; 'true' + newline\n"
    } else {
        "    mov rsi, false_str\n    mov rdx, 6       ; 'false' + newline\n"
    }
}

/// Points `rsi` at the word for a truth value and sets the length of the
/// bare word.
pub open spec fn truth_word(b: bool) -> Seq<char> {
    if b {
        "    mov rsi, true_str\n    mov rdx, 4       ; 'true'\n"@
    } else {
        "    mov rsi, false_str\n    mov rdx, 5       ; 'false'\n"@
    }
}

pub(crate) fn truth_word_of(b: bool) -> (r: &'static str)
    ensures
        r@ == truth_word(b),
{
    if b {
        "    mov rsi, true_str\n    mov rdx, 4       ; 'true'\n"
    } else {
        "    mov rsi, false_str\n    mov rdx, 5       ; 'false'\n"
    }
}

/// Points `rsi` at the word for the truth value that a variable holds at
/// run time. The two jump targets carry the variable's name and a number
/// that no other target of the document carries.
pub open spec fn runtime_truth(name: Seq<char>, number: u64) -> Seq<char> {
    line("    mov rax, "@, cell(name)) + "    cmp rax, 0\n"@ + line(
        "    je "@,
        numbered(".false_"@ + name, number),
    ) + "    mov rsi, true_str\n"@ + line("    jmp "@, numbered(".done_"@ + name, number)) + mark(
        numbered(".false_"@ + name, number),
    ) + "    mov rsi, false_str\n"@ + mark(numbered(".done_"@ + name, number))
}

pub(crate) fn runtime_truth_of(name: &str, number: u64) -> (r: String)
    ensures
        r@ == runtime_truth(name@, number),
{
    let place = cell_of(name);
    let otherwise = numbered_of(String::from_str(".false_").concat(name).as_str(), number);
    let done = numbered_of(String::from_str(".done_").concat(name).as_str(), number);
    let mut r = line_of("    mov rax, ", place.as_str());
    r.append("    cmp rax, 0\n");
    r.append(line_of("    je ", otherwise.as_str()).as_str());
    r.append("    mov rsi, true_str\n");
    r.append(line_of("    jmp ", done.as_str()).as_str());
    r.append(mark_of(otherwise.as_str()).as_str());
    r.append("    mov rsi, false_str\n");
    r.append(mark_of(done.as_str()).as_str());
    r
}

/// Combines the left operand in `rax` with the right operand in `rbx`.
pub open spec fn operator_code(op: BinOp) -> Seq<char> {
    match op {
        BinOp::Add => "    add rax, rbx\n"@,
        BinOp::Sub => "    sub rax, rbx\n"@,
        BinOp::Mul => "    imul rax, rbx\n"@,
        BinOp::Div => "    xor rdx, rdx\n    div rbx\n"@,
        BinOp::Equal => "    cmp rax, rbx\n    sete al\n    movzx rax, al\n"@,
        BinOp::NotEqual => "    cmp rax, rbx\n    setne al\n    movzx rax, al\n"@,
        BinOp::Lt => "    cmp rax, rbx\n    setl al\n    movzx rax, al\n"@,
        BinOp::Gt => "    cmp rax, rbx\n    setg al\n    movzx rax, al\n"@,
        BinOp::Lte => "    cmp rax, rbx\n    setle al\n    movzx rax, al\n"@,
        BinOp::Gte => "    cmp rax, rbx\n    setge al\n    movzx rax, al\n"@,
    }
}

pub(crate) fn operator_code_of(op: BinOp) -> (r: &'static str)
    ensures
        r@ == operator_code(op),
{
    match op {
        BinOp::Add => "    add rax, rbx\n",
        BinOp::Sub => "    sub rax, rbx\n",
        BinOp::Mul => "    imul rax, rbx\n",
        BinOp::Div => "    xor rdx, rdx\n    div rbx\n",
        BinOp::Equal => "    cmp rax, rbx\n    sete al\n    movzx rax, al\n",
        BinOp::NotEqual => "    cmp rax, rbx\n    setne al\n    movzx rax, al\n",
        BinOp::Lt => "    cmp rax, rbx\n    setl al\n    movzx rax, al\n",
        BinOp::Gt => "    cmp rax, rbx\n    setg al\n    movzx rax, al\n",
        BinOp::Lte => "    cmp rax, rbx\n    setle al\n    movzx rax, al\n",
        BinOp::Gte => "    cmp rax, rbx\n    setge al\n    movzx rax, al\n",
    }
}

/// The comment that stands for an array value: its number of elements.
pub open spec fn array_note(len: nat) -> Seq<char> {
    "[array with "@ + decimal(len as int) + " elements]"@
}

pub(crate) fn array_note_of(len: usize) -> (r: String)
    ensures
        r@ == array_note(len as nat),
{
    let digits = decimal_text(len as i128);
    join3("[array with ", digits.as_str(), " elements]")
}

/// Saves the registers that a nested numeric expression may clobber.
pub const APPEND_RESULT_HEAD: &'static str = "    ; Append result of numeric expression
    push rbx
    push rdx
";

/// Restores the saved registers and appends the result in `rax`.
pub const APPEND_RESULT_TAIL: &'static str = "    ; Call append_number with result in RAX
    pop rdx
    pop rbx
    call append_number
";

/// Appends the word for the null value.
pub const APPEND_NULL: &'static str = "    ; Append null
    mov rsi, null_str
    call append_string_without_newline
";

/// Points `rsi` at the word for the null value.
pub const NULL_SOURCE: &'static str = "    mov rsi, null_str
";

/// Prints the word for the null value on a line of its own.
pub const PRINT_NULL: &'static str = "    ; Print null
    mov rax, 1          ; sys_write
    mov rdi, 1          ; stdout
    mov rsi, null_str
    mov rdx, 5          ; 'null' + newline
    syscall

";

/// Prints the word for the null value as an array element.
pub const PRINT_NULL_ELEMENT: &'static str = "    ; Print array element (null)
    mov rax, 1          ; sys_write
    mov rdi, 1          ; stdout
    mov rsi, null_str
    mov rdx, 4          ; 'null'
    syscall

";

/// Prints the bracket that opens an array.
pub const ARRAY_OPEN: &'static str = "    ; Print array
    mov rax, 1          ; sys_write
    mov rdi, 1          ; stdout
    mov rsi, array_open
    mov rdx, 1          ; '['
    syscall

";

/// Prints the separator between two array elements.
pub const ARRAY_SEPARATOR: &'static str = "    mov rax, 1          ; sys_write
    mov rdi, 1          ; stdout
    mov rsi, array_separator
    mov rdx, 2          ; ', '
    syscall

";

/// Prints the bracket that closes an array, and a line break.
pub const ARRAY_CLOSE: &'static str = "    mov rax, 1          ; sys_write
    mov rdi, 1          ; stdout
    mov rsi, array_close
    mov rdx, 2          ; ']' + newline
    syscall

";

/// Prints the bracket that opens an array that is an element of another.
pub const NESTED_OPEN: &'static str = "    ; Print array element (array)
    mov rax, 1          ; sys_write
    mov rdi, 1          ; stdout
    mov rsi, array_open
    mov rdx, 1          ; '['
    syscall

";

/// Prints the bracket that closes an array that is an element of another,
/// without a line break.
pub const NESTED_CLOSE: &'static str = "    mov rax, 1          ; sys_write
    mov rdi, 1          ; stdout
    mov rsi, array_close
    mov rdx, 1          ; ']'
    syscall

";

/// Announces an array element that is computed or read at run time.
pub const ELEMENT_NOTE: &'static str = "    ; Print array element (expression)
";

/// Terminates the concatenation buffer and writes it without a line
/// break.
pub const ELEMENT_FLUSH: &'static str = "    mov byte [rdi], 0    ; Add null terminator
    mov rax, 1           ; sys_write
    mov rdi, 1           ; stdout
    mov rsi, str_buffer  ; String buffer
    mov rdx, rcx         ; String length
    syscall

";

/// Announces the printing of a numeric expression.
pub const PRINT_NUMERIC_NOTE: &'static str = "    ; Print numeric expression result
";

/// Announces an exit and selects the exit system call.
pub const EXIT_HEAD: &'static str = "    ; Exit program
    mov rax, 60         ; sys_exit
";

/// Selects the exit system call.
pub const SELECT_EXIT: &'static str = "    mov rax, 60         ; sys_exit
";

/// The status of a name that holds no number.
pub const DEFAULT_STATUS: &'static str = "    mov rdi, 0      ; Non-numeric value defaults to 0
";

/// Announces an exit whose status is computed.
pub const EXIT_NOTE: &'static str = "    ; Exit program with expression result
";

/// Exits with the status in `rax`.
pub const EXIT_RESULT: &'static str = "    mov rdi, rax        ; Move result to exit code
    mov rax, 60         ; sys_exit
    syscall

";

/// Announces a conditional.
pub const IF_NOTE: &'static str = "    ; If-Statement (condition evaluation)
";

/// Sets the zero flag when the condition in `rax` is false.
pub const TEST_CONDITION: &'static str = "    test rax, rax
";

/// Announces the branch taken when the condition holds.
pub const THEN_NOTE: &'static str = "    ; Then-Branch
";

/// Announces the branch taken when the condition fails.
pub const ELSE_NOTE: &'static str = "    ; Else-Branch
";

} // verus!
