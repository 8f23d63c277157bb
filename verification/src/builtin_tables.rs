//! The rows of the built-in documentation tables: name, signature,
//! description and category of each Maxima function and constant.

use vstd::prelude::*;

verus! {

/// One table row: name, signature, description, category.
pub type Row = (&'static str, &'static str, &'static str, &'static str);

/// The character views of a row.
pub open spec fn row_view(r: Row) -> (Seq<char>, Seq<char>, Seq<char>, Seq<char>) {
    (r.0@, r.1@, r.2@, r.3@)
}

/// The character views of rows.
pub open spec fn row_views(rs: Seq<Row>) -> Seq<(Seq<char>, Seq<char>, Seq<char>, Seq<char>)> {
    rs.map_values(|r: Row| row_view(r))
}

/// The arithmetic rows.
pub open spec fn arithmetic_rows() -> Seq<(Seq<char>, Seq<char>, Seq<char>, Seq<char>)> {
    seq![
        ("+"@, "+"@, "Addition operator"@, "arithmetic"@),
        ("-"@, "-"@, "Subtraction / negation operator"@, "arithmetic"@),
        ("*"@, "*"@, "Multiplication operator"@, "arithmetic"@),
        ("/"@, "/"@, "Division operator"@, "arithmetic"@),
        ("^"@, "^"@, "Exponentiation operator"@, "arithmetic"@),
        ("^^"@, "^^"@, "Non-commutative exponentiation / matrix exponent"@, "arithmetic"@),
        ("."@, "."@, "Non-commutative multiplication / dot product"@, "arithmetic"@),
    ]
}

/// The arithmetic rows, for building the table.
pub fn arithmetic_table() -> (t: Vec<Row>)
    ensures
        row_views(t@) == arithmetic_rows(),
{
    let mut t: Vec<Row> = Vec::new();
    t.push(("+", "+", "Addition operator", "arithmetic"));
    t.push(("-", "-", "Subtraction / negation operator", "arithmetic"));
    t.push(("*", "*", "Multiplication operator", "arithmetic"));
    t.push(("/", "/", "Division operator", "arithmetic"));
    t.push(("^", "^", "Exponentiation operator", "arithmetic"));
    t.push(("^^", "^^", "Non-commutative exponentiation / matrix exponent", "arithmetic"));
    t.push((".", ".", "Non-commutative multiplication / dot product", "arithmetic"));
    assert(row_views(t@) =~= arithmetic_rows());
    t
}

/// The assignment rows.
pub open spec fn assignment_rows() -> Seq<(Seq<char>, Seq<char>, Seq<char>, Seq<char>)> {
    seq![
        (":"@, "var : expr"@, "Assignment operator"@, "assignment"@),
    ]
}

/// The assignment rows, for building the table.
pub fn assignment_table() -> (t: Vec<Row>)
    ensures
        row_views(t@) == assignment_rows(),
{
    let mut t: Vec<Row> = Vec::new();
    t.push((":", "var : expr", "Assignment operator", "assignment"));
    assert(row_views(t@) =~= assignment_rows());
    t
}

/// The trig rows.
pub open spec fn trigonometry_rows() -> Seq<(Seq<char>, Seq<char>, Seq<char>, Seq<char>)> {
    seq![
        ("sin"@, "sin(x)"@, "Sine"@, "trigonometry"@),
        ("cos"@, "cos(x)"@, "Cosine"@, "trigonometry"@),
        ("tan"@, "tan(x)"@, "Tangent"@, "trigonometry"@),
        ("cot"@, "cot(x)"@, "Cotangent"@, "trigonometry"@),
        ("sec"@, "sec(x)"@, "Secant"@, "trigonometry"@),
        ("csc"@, "csc(x)"@, "Cosecant"@, "trigonometry"@),
        ("asin"@, "asin(x)"@, "Arc sine"@, "trigonometry"@),
        ("acos"@, "acos(x)"@, "Arc cosine"@, "trigonometry"@),
        ("atan"@, "atan(x)"@, "Arc tangent"@, "trigonometry"@),
        ("acot"@, "acot(x)"@, "Arc cotangent"@, "trigonometry"@),
        ("asec"@, "asec(x)"@, "Arc secant"@, "trigonometry"@),
        ("acsc"@, "acsc(x)"@, "Arc cosecant"@, "trigonometry"@),
        ("sinh"@, "sinh(x)"@, "Hyperbolic sine"@, "trigonometry"@),
        ("cosh"@, "cosh(x)"@, "Hyperbolic cosine"@, "trigonometry"@),
        ("tanh"@, "tanh(x)"@, "Hyperbolic tangent"@, "trigonometry"@),
        ("coth"@, "coth(x)"@, "Hyperbolic cotangent"@, "trigonometry"@),
        ("sech"@, "sech(x)"@, "Hyperbolic secant"@, "trigonometry"@),
        ("csch"@, "csch(x)"@, "Hyperbolic cosecant"@, "trigonometry"@),
        ("asinh"@, "asinh(x)"@, "Inverse hyperbolic sine"@, "trigonometry"@),
        ("acosh"@, "acosh(x)"@, "Inverse hyperbolic cosine"@, "trigonometry"@),
        ("atanh"@, "atanh(x)"@, "Inverse hyperbolic tangent"@, "trigonometry"@),
    ]
}

/// The trig rows, for building the table.
pub fn trigonometry_table() -> (t: Vec<Row>)
    ensures
        row_views(t@) == trigonometry_rows(),
{
    let mut t: Vec<Row> = Vec::new();
    t.push(("sin", "sin(x)", "Sine", "trigonometry"));
    t.push(("cos", "cos(x)", "Cosine", "trigonometry"));
    t.push(("tan", "tan(x)", "Tangent", "trigonometry"));
    t.push(("cot", "cot(x)", "Cotangent", "trigonometry"));
    t.push(("sec", "sec(x)", "Secant", "trigonometry"));
    t.push(("csc", "csc(x)", "Cosecant", "trigonometry"));
    t.push(("asin", "asin(x)", "Arc sine", "trigonometry"));
    t.push(("acos", "acos(x)", "Arc cosine", "trigonometry"));
    t.push(("atan", "atan(x)", "Arc tangent", "trigonometry"));
    t.push(("acot", "acot(x)", "Arc cotangent", "trigonometry"));
    t.push(("asec", "asec(x)", "Arc secant", "trigonometry"));
    t.push(("acsc", "acsc(x)", "Arc cosecant", "trigonometry"));
    t.push(("sinh", "sinh(x)", "Hyperbolic sine", "trigonometry"));
    t.push(("cosh", "cosh(x)", "Hyperbolic cosine", "trigonometry"));
    t.push(("tanh", "tanh(x)", "Hyperbolic tangent", "trigonometry"));
    t.push(("coth", "coth(x)", "Hyperbolic cotangent", "trigonometry"));
    t.push(("sech", "sech(x)", "Hyperbolic secant", "trigonometry"));
    t.push(("csch", "csch(x)", "Hyperbolic cosecant", "trigonometry"));
    t.push(("asinh", "asinh(x)", "Inverse hyperbolic sine", "trigonometry"));
    t.push(("acosh", "acosh(x)", "Inverse hyperbolic cosine", "trigonometry"));
    t.push(("atanh", "atanh(x)", "Inverse hyperbolic tangent", "trigonometry"));
    assert(row_views(t@) =~= trigonometry_rows());
    t
}

/// The calculus rows.
pub open spec fn calculus_rows() -> Seq<(Seq<char>, Seq<char>, Seq<char>, Seq<char>)> {
    seq![
        ("diff"@, "diff(expr, var, n)"@, "Differentiate expr with respect to var n times"@, "calculus"@),
        ("integrate"@, "integrate(expr, var)  |  integrate(expr, var, lo, hi)"@, "Integrate expr with respect to var"@, "calculus"@),
        ("sum"@, "sum(expr, var, lo, hi)"@, "Summation from var=lo to hi"@, "calculus"@),
        ("product"@, "product(expr, var, lo, hi)"@, "Product from var=lo to hi"@, "calculus"@),
        ("limit"@, "limit(expr, var, val, dir)"@, "Limit of expr as var approaches val from direction dir"@, "calculus"@),
        ("taylor"@, "taylor(expr, var, pt, n)"@, "Taylor series expansion"@, "calculus"@),
        ("series"@, "series(expr, var, pt, n)"@, "Series expansion"@, "calculus"@),
        ("laplace"@, "laplace(expr, t, s)"@, "Laplace transform"@, "calculus"@),
        ("ilt"@, "ilt(expr, s, t)"@, "Inverse Laplace transform"@, "calculus"@),
    ]
}

/// The calculus rows, for building the table.
pub fn calculus_table() -> (t: Vec<Row>)
    ensures
        row_views(t@) == calculus_rows(),
{
    let mut t: Vec<Row> = Vec::new();
    t.push(("diff", "diff(expr, var, n)", "Differentiate expr with respect to var n times", "calculus"));
    t.push(("integrate", "integrate(expr, var)  |  integrate(expr, var, lo, hi)", "Integrate expr with respect to var", "calculus"));
    t.push(("sum", "sum(expr, var, lo, hi)", "Summation from var=lo to hi", "calculus"));
    t.push(("product", "product(expr, var, lo, hi)", "Product from var=lo to hi", "calculus"));
    t.push(("limit", "limit(expr, var, val, dir)", "Limit of expr as var approaches val from direction dir", "calculus"));
    t.push(("taylor", "taylor(expr, var, pt, n)", "Taylor series expansion", "calculus"));
    t.push(("series", "series(expr, var, pt, n)", "Series expansion", "calculus"));
    t.push(("laplace", "laplace(expr, t, s)", "Laplace transform", "calculus"));
    t.push(("ilt", "ilt(expr, s, t)", "Inverse Laplace transform", "calculus"));
    assert(row_views(t@) =~= calculus_rows());
    t
}

/// The algebraic manipulation rows.
pub open spec fn algebra_rows() -> Seq<(Seq<char>, Seq<char>, Seq<char>, Seq<char>)> {
    seq![
        ("expand"@, "expand(expr)"@, "Expand an expression"@, "algebra"@),
        ("factor"@, "factor(expr)"@, "Factor an expression"@, "algebra"@),
        ("ratsimp"@, "ratsimp(expr)"@, "Simplify rational expression"@, "algebra"@),
        ("fullratsimp"@, "fullratsimp(expr)"@, "Repeatedly simplify rational expression"@, "algebra"@),
        ("radcan"@, "radcan(expr)"@, "Simplify radicals and logs"@, "algebra"@),
        ("logcontract"@, "logcontract(expr)"@, "Contract logarithms"@, "algebra"@),
        ("rootscontract"@, "rootscontract(expr)"@, "Contract roots"@, "algebra"@),
        ("partfrac"@, "partfrac(expr, var)"@, "Partial fraction decomposition"@, "algebra"@),
        ("subst"@, "subst(x, y, expr)"@, "Substitute x for y in expr"@, "algebra"@),
        ("psubst"@, "psubst(list, expr)"@, "Parallel substitution"@, "algebra"@),
        ("ratsubst"@, "ratsubst(a, b, expr)"@, "Rational substitution"@, "algebra"@),
        ("coeff"@, "coeff(expr, var, n)"@, "Coefficient of var^n in expr"@, "algebra"@),
        ("bothcoef"@, "bothcoef(expr, var)"@, "Coefficient and remainder"@, "algebra"@),
        ("solve"@, "solve(expr, var)  |  solve([eqns], [vars])"@, "Solve equation(s) for variable(s)"@, "algebra"@),
        ("linsolve"@, "linsolve([eqns], [vars])"@, "Solve linear equations"@, "algebra"@),
        ("allroots"@, "allroots(expr)"@, "Find all roots of a polynomial"@, "algebra"@),
        ("realroots"@, "realroots(expr)"@, "Find real roots"@, "algebra"@),
    ]
}

/// The algebraic manipulation rows, for building the table.
pub fn algebra_table() -> (t: Vec<Row>)
    ensures
        row_views(t@) == algebra_rows(),
{
    let mut t: Vec<Row> = Vec::new();
    t.push(("expand", "expand(expr)", "Expand an expression", "algebra"));
    t.push(("factor", "factor(expr)", "Factor an expression", "algebra"));
    t.push(("ratsimp", "ratsimp(expr)", "Simplify rational expression", "algebra"));
    t.push(("fullratsimp", "fullratsimp(expr)", "Repeatedly simplify rational expression", "algebra"));
    t.push(("radcan", "radcan(expr)", "Simplify radicals and logs", "algebra"));
    t.push(("logcontract", "logcontract(expr)", "Contract logarithms", "algebra"));
    t.push(("rootscontract", "rootscontract(expr)", "Contract roots", "algebra"));
    t.push(("partfrac", "partfrac(expr, var)", "Partial fraction decomposition", "algebra"));
    t.push(("subst", "subst(x, y, expr)", "Substitute x for y in expr", "algebra"));
    t.push(("psubst", "psubst(list, expr)", "Parallel substitution", "algebra"));
    t.push(("ratsubst", "ratsubst(a, b, expr)", "Rational substitution", "algebra"));
    t.push(("coeff", "coeff(expr, var, n)", "Coefficient of var^n in expr", "algebra"));
    t.push(("bothcoef", "bothcoef(expr, var)", "Coefficient and remainder", "algebra"));
    t.push(("solve", "solve(expr, var)  |  solve([eqns], [vars])", "Solve equation(s) for variable(s)", "algebra"));
    t.push(("linsolve", "linsolve([eqns], [vars])", "Solve linear equations", "algebra"));
    t.push(("allroots", "allroots(expr)", "Find all roots of a polynomial", "algebra"));
    t.push(("realroots", "realroots(expr)", "Find real roots", "algebra"));
    assert(row_views(t@) =~= algebra_rows());
    t
}

/// The matrix rows.
pub open spec fn matrix_rows() -> Seq<(Seq<char>, Seq<char>, Seq<char>, Seq<char>)> {
    seq![
        ("matrix"@, "matrix(row1, row2, ...)"@, "Create a matrix from rows"@, "matrix"@),
        ("determinant"@, "determinant(mat)"@, "Determinant of a matrix"@, "matrix"@),
        ("invert"@, "invert(mat)"@, "Inverse of a matrix"@, "matrix"@),
        ("transpose"@, "transpose(mat)"@, "Transpose of a matrix"@, "matrix"@),
        ("eigenvalues"@, "eigenvalues(mat)"@, "Eigenvalues of a matrix"@, "matrix"@),
        ("eigenvectors"@, "eigenvectors(mat)"@, "Eigenvectors of a matrix"@, "matrix"@),
        ("diagmatrix"@, "diagmatrix(n, x)"@, "Diagonal matrix of size n with x on diagonal"@, "matrix"@),
        ("ident"@, "ident(n)"@, "Identity matrix of size n"@, "matrix"@),
        ("zeromatrix"@, "zeromatrix(m, n)"@, "Zero matrix of size m x n"@, "matrix"@),
    ]
}

/// The matrix rows, for building the table.
pub fn matrix_table() -> (t: Vec<Row>)
    ensures
        row_views(t@) == matrix_rows(),
{
    let mut t: Vec<Row> = Vec::new();
    t.push(("matrix", "matrix(row1, row2, ...)", "Create a matrix from rows", "matrix"));
    t.push(("determinant", "determinant(mat)", "Determinant of a matrix", "matrix"));
    t.push(("invert", "invert(mat)", "Inverse of a matrix", "matrix"));
    t.push(("transpose", "transpose(mat)", "Transpose of a matrix", "matrix"));
    t.push(("eigenvalues", "eigenvalues(mat)", "Eigenvalues of a matrix", "matrix"));
    t.push(("eigenvectors", "eigenvectors(mat)", "Eigenvectors of a matrix", "matrix"));
    t.push(("diagmatrix", "diagmatrix(n, x)", "Diagonal matrix of size n with x on diagonal", "matrix"));
    t.push(("ident", "ident(n)", "Identity matrix of size n", "matrix"));
    t.push(("zeromatrix", "zeromatrix(m, n)", "Zero matrix of size m x n", "matrix"));
    assert(row_views(t@) =~= matrix_rows());
    t
}

/// The set operations rows.
pub open spec fn sets_rows() -> Seq<(Seq<char>, Seq<char>, Seq<char>, Seq<char>)> {
    seq![
        ("union"@, "union(set1, set2, ...)"@, "Union of sets"@, "sets"@),
        ("intersection"@, "intersection(set1, set2, ...)"@, "Intersection of sets"@, "sets"@),
        ("setdifference"@, "setdifference(set1, set2)"@, "Set difference"@, "sets"@),
        ("setp"@, "setp(expr)"@, "Test if expression is a set"@, "sets"@),
        ("cardinality"@, "cardinality(set)"@, "Number of elements in a set"@, "sets"@),
        ("subset"@, "subset(set, pred)"@, "Subset of set satisfying pred"@, "sets"@),
        ("adjoin"@, "adjoin(x, set)"@, "Add element x to set"@, "sets"@),
        ("disjoin"@, "disjoin(x, set)"@, "Remove element x from set"@, "sets"@),
    ]
}

/// The set operations rows, for building the table.
pub fn sets_table() -> (t: Vec<Row>)
    ensures
        row_views(t@) == sets_rows(),
{
    let mut t: Vec<Row> = Vec::new();
    t.push(("union", "union(set1, set2, ...)", "Union of sets", "sets"));
    t.push(("intersection", "intersection(set1, set2, ...)", "Intersection of sets", "sets"));
    t.push(("setdifference", "setdifference(set1, set2)", "Set difference", "sets"));
    t.push(("setp", "setp(expr)", "Test if expression is a set", "sets"));
    t.push(("cardinality", "cardinality(set)", "Number of elements in a set", "sets"));
    t.push(("subset", "subset(set, pred)", "Subset of set satisfying pred", "sets"));
    t.push(("adjoin", "adjoin(x, set)", "Add element x to set", "sets"));
    t.push(("disjoin", "disjoin(x, set)", "Remove element x from set", "sets"));
    assert(row_views(t@) =~= sets_rows());
    t
}

/// The number theory rows.
pub open spec fn number_theory_rows() -> Seq<(Seq<char>, Seq<char>, Seq<char>, Seq<char>)> {
    seq![
        ("primep"@, "primep(n)"@, "Test if n is prime"@, "number theory"@),
        ("next_prime"@, "next_prime(n)"@, "Next prime greater than n"@, "number theory"@),
        ("prev_prime"@, "prev_prime(n)"@, "Previous prime less than n"@, "number theory"@),
        ("gcd"@, "gcd(a, b)"@, "Greatest common divisor"@, "number theory"@),
        ("lcm"@, "lcm(a, b)"@, "Least common multiple"@, "number theory"@),
        ("mod"@, "mod(a, b)"@, "Modulus (remainder)"@, "number theory"@),
        ("factor"@, "factor(n)"@, "Prime factorization of integer n"@, "number theory"@),
        ("divisors"@, "divisors(n)"@, "All divisors of n"@, "number theory"@),
    ]
}

/// The number theory rows, for building the table.
pub fn number_theory_table() -> (t: Vec<Row>)
    ensures
        row_views(t@) == number_theory_rows(),
{
    let mut t: Vec<Row> = Vec::new();
    t.push(("primep", "primep(n)", "Test if n is prime", "number theory"));
    t.push(("next_prime", "next_prime(n)", "Next prime greater than n", "number theory"));
    t.push(("prev_prime", "prev_prime(n)", "Previous prime less than n", "number theory"));
    t.push(("gcd", "gcd(a, b)", "Greatest common divisor", "number theory"));
    t.push(("lcm", "lcm(a, b)", "Least common multiple", "number theory"));
    t.push(("mod", "mod(a, b)", "Modulus (remainder)", "number theory"));
    t.push(("factor", "factor(n)", "Prime factorization of integer n", "number theory"));
    t.push(("divisors", "divisors(n)", "All divisors of n", "number theory"));
    assert(row_views(t@) =~= number_theory_rows());
    t
}

/// The special functions rows.
pub open spec fn special_rows() -> Seq<(Seq<char>, Seq<char>, Seq<char>, Seq<char>)> {
    seq![
        ("sqrt"@, "sqrt(x)"@, "Square root"@, "special"@),
        ("abs"@, "abs(x)"@, "Absolute value"@, "special"@),
        ("log"@, "log(x)"@, "Natural logarithm"@, "special"@),
        ("exp"@, "exp(x)"@, "Exponential e^x"@, "special"@),
        ("gamma"@, "gamma(z)"@, "Gamma function"@, "special"@),
        ("beta"@, "beta(a, b)"@, "Beta function"@, "special"@),
        ("zeta"@, "zeta(z)"@, "Riemann zeta function"@, "special"@),
        ("erf"@, "erf(x)"@, "Error function"@, "special"@),
        ("bessel_j"@, "bessel_j(n, x)"@, "Bessel function of first kind"@, "special"@),
        ("bessel_y"@, "bessel_y(n, x)"@, "Bessel function of second kind"@, "special"@),
    ]
}

/// The special functions rows, for building the table.
pub fn special_table() -> (t: Vec<Row>)
    ensures
        row_views(t@) == special_rows(),
{
    let mut t: Vec<Row> = Vec::new();
    t.push(("sqrt", "sqrt(x)", "Square root", "special"));
    t.push(("abs", "abs(x)", "Absolute value", "special"));
    t.push(("log", "log(x)", "Natural logarithm", "special"));
    t.push(("exp", "exp(x)", "Exponential e^x", "special"));
    t.push(("gamma", "gamma(z)", "Gamma function", "special"));
    t.push(("beta", "beta(a, b)", "Beta function", "special"));
    t.push(("zeta", "zeta(z)", "Riemann zeta function", "special"));
    t.push(("erf", "erf(x)", "Error function", "special"));
    t.push(("bessel_j", "bessel_j(n, x)", "Bessel function of first kind", "special"));
    t.push(("bessel_y", "bessel_y(n, x)", "Bessel function of second kind", "special"));
    assert(row_views(t@) =~= special_rows());
    t
}

/// The control + programming rows.
pub open spec fn control_rows() -> Seq<(Seq<char>, Seq<char>, Seq<char>, Seq<char>)> {
    seq![
        ("block"@, "block([vars], expr1, expr2, ...)"@, "Compound expression with local variables"@, "control"@),
        ("lambda"@, "lambda([params], body)"@, "Anonymous function"@, "control"@),
        ("define"@, "define(f(x), expr)"@, "Define a function (evaluates body)"@, "control"@),
        ("buildq"@, "buildq([vars], template)"@, "Build expression with substitution"@, "control"@),
        ("splice"@, "splice(list)"@, "Splice list into expression"@, "control"@),
        ("apply"@, "apply(f, [args])"@, "Apply function f to argument list"@, "control"@),
        ("map"@, "map(f, expr1, ...)"@, "Apply f to each argument"@, "control"@),
        ("makelist"@, "makelist(expr, var, lo, hi)"@, "Create a list"@, "control"@),
    ]
}

/// The control + programming rows, for building the table.
pub fn control_table() -> (t: Vec<Row>)
    ensures
        row_views(t@) == control_rows(),
{
    let mut t: Vec<Row> = Vec::new();
    t.push(("block", "block([vars], expr1, expr2, ...)", "Compound expression with local variables", "control"));
    t.push(("lambda", "lambda([params], body)", "Anonymous function", "control"));
    t.push(("define", "define(f(x), expr)", "Define a function (evaluates body)", "control"));
    t.push(("buildq", "buildq([vars], template)", "Build expression with substitution", "control"));
    t.push(("splice", "splice(list)", "Splice list into expression", "control"));
    t.push(("apply", "apply(f, [args])", "Apply function f to argument list", "control"));
    t.push(("map", "map(f, expr1, ...)", "Apply f to each argument", "control"));
    t.push(("makelist", "makelist(expr, var, lo, hi)", "Create a list", "control"));
    assert(row_views(t@) =~= control_rows());
    t
}

/// The display rows.
pub open spec fn display_rows() -> Seq<(Seq<char>, Seq<char>, Seq<char>, Seq<char>)> {
    seq![
        ("print"@, "print(expr1, expr2, ...)"@, "Print expressions"@, "display"@),
        ("display"@, "display(expr1, expr2, ...)"@, "Display expressions with labels"@, "display"@),
        ("tex"@, "tex(expr)"@, "Output expression in TeX format"@, "display"@),
        ("fortran"@, "fortran(expr)"@, "Output expression in Fortran format"@, "display"@),
        ("c"@, "c(expr)"@, "Output expression in C format"@, "display"@),
    ]
}

/// The display rows, for building the table.
pub fn display_table() -> (t: Vec<Row>)
    ensures
        row_views(t@) == display_rows(),
{
    let mut t: Vec<Row> = Vec::new();
    t.push(("print", "print(expr1, expr2, ...)", "Print expressions", "display"));
    t.push(("display", "display(expr1, expr2, ...)", "Display expressions with labels", "display"));
    t.push(("tex", "tex(expr)", "Output expression in TeX format", "display"));
    t.push(("fortran", "fortran(expr)", "Output expression in Fortran format", "display"));
    t.push(("c", "c(expr)", "Output expression in C format", "display"));
    assert(row_views(t@) =~= display_rows());
    t
}

/// The system rows.
pub open spec fn system_rows() -> Seq<(Seq<char>, Seq<char>, Seq<char>, Seq<char>)> {
    seq![
        ("kill"@, "kill(a, b, ...)  |  kill(all)"@, "Remove variables, functions, or labels"@, "system"@),
        ("remvalue"@, "remvalue(a, b, ...)"@, "Remove values of variables"@, "system"@),
        ("remfunction"@, "remfunction(f1, f2, ...)"@, "Remove function definitions"@, "system"@),
        ("load"@, "load(filename)"@, "Load a Maxima package"@, "system"@),
        ("batch"@, "batch(filename)"@, "Load and execute file"@, "system"@),
        ("batchload"@, "batchload(filename)"@, "Load file without display"@, "system"@),
        ("string"@, "string(expr)"@, "Convert expression to string"@, "system"@),
        ("eval_string"@, "eval_string(str)"@, "Evaluate string as Maxima expression"@, "system"@),
        ("parse_string"@, "parse_string(str)"@, "Parse string to Maxima expression"@, "system"@),
    ]
}

/// The system rows, for building the table.
pub fn system_table() -> (t: Vec<Row>)
    ensures
        row_views(t@) == system_rows(),
{
    let mut t: Vec<Row> = Vec::new();
    t.push(("kill", "kill(a, b, ...)  |  kill(all)", "Remove variables, functions, or labels", "system"));
    t.push(("remvalue", "remvalue(a, b, ...)", "Remove values of variables", "system"));
    t.push(("remfunction", "remfunction(f1, f2, ...)", "Remove function definitions", "system"));
    t.push(("load", "load(filename)", "Load a Maxima package", "system"));
    t.push(("batch", "batch(filename)", "Load and execute file", "system"));
    t.push(("batchload", "batchload(filename)", "Load file without display", "system"));
    t.push(("string", "string(expr)", "Convert expression to string", "system"));
    t.push(("eval_string", "eval_string(str)", "Evaluate string as Maxima expression", "system"));
    t.push(("parse_string", "parse_string(str)", "Parse string to Maxima expression", "system"));
    assert(row_views(t@) =~= system_rows());
    t
}

/// The constants rows.
pub open spec fn constants_rows() -> Seq<(Seq<char>, Seq<char>, Seq<char>, Seq<char>)> {
    seq![
        ("%"@, "%"@, "Last result"@, "constant"@),
        ("%e"@, "%e"@, "Euler's number (base of natural log)"@, "constant"@),
        ("%i"@, "%i"@, "Imaginary unit sqrt(-1)"@, "constant"@),
        ("%pi"@, "%pi"@, "Pi (3.14159...)"@, "constant"@),
        ("%phi"@, "%phi"@, "Golden ratio (1.61803...)"@, "constant"@),
        ("%gamma"@, "%gamma"@, "Euler-Mascheroni constant"@, "constant"@),
        ("inf"@, "inf"@, "Positive infinity"@, "constant"@),
        ("minf"@, "minf"@, "Negative infinity"@, "constant"@),
        ("true"@, "true"@, "Boolean true"@, "constant"@),
        ("false"@, "false"@, "Boolean false"@, "constant"@),
    ]
}

/// The constants rows, for building the table.
pub fn constants_table() -> (t: Vec<Row>)
    ensures
        row_views(t@) == constants_rows(),
{
    let mut t: Vec<Row> = Vec::new();
    t.push(("%", "%", "Last result", "constant"));
    t.push(("%e", "%e", "Euler's number (base of natural log)", "constant"));
    t.push(("%i", "%i", "Imaginary unit sqrt(-1)", "constant"));
    t.push(("%pi", "%pi", "Pi (3.14159...)", "constant"));
    t.push(("%phi", "%phi", "Golden ratio (1.61803...)", "constant"));
    t.push(("%gamma", "%gamma", "Euler-Mascheroni constant", "constant"));
    t.push(("inf", "inf", "Positive infinity", "constant"));
    t.push(("minf", "minf", "Negative infinity", "constant"));
    t.push(("true", "true", "Boolean true", "constant"));
    t.push(("false", "false", "Boolean false", "constant"));
    assert(row_views(t@) =~= constants_rows());
    t
}

} // verus!
